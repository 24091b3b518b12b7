use renderer::index::{
    chunk_index, count_data_entries, examine_entry, examine_server_dir, is_chunk_entry,
    output_path, page_name, plan_servers, shard_labels, ChannelIndex, ChannelIndexEntry,
    DirListing, EntryError, ServerStep,
};
use renderer::model::{ChannelData, ChannelDataRaw, Fields, ServerData, ServerDataRaw};
use renderer::text::{contains, decimal_text, parse_number, same_text};

#[test]
fn page_name_of_base_and_shard() {
    assert_eq!(page_name("42", 0), "42");
    assert_eq!(page_name("42", 3), "42_3");
    assert_eq!(page_name("42", 10), "42_10");
}

#[test]
fn page_name_depends_on_nothing_else() {
    let first = page_name("7", 2);
    let _ = page_name("8", 5);
    assert_eq!(page_name("7", 2), first);
}

#[test]
fn output_path_of_pages() {
    assert_eq!(output_path(12, "index"), "out/12/index.html");
    assert_eq!(output_path(12, &page_name("42", 3)), "out/12/42_3.html");
}

#[test]
fn two_entries_give_no_shard() {
    let labels = shard_labels("general", 2);
    assert_eq!(labels, vec!["general".to_string()]);
    assert_eq!(shard_labels("general", 0).len(), 1);
    assert_eq!(shard_labels("general", 1).len(), 1);
}

#[test]
fn five_entries_give_three_shards() {
    let labels = shard_labels("general", 5);
    assert_eq!(
        labels,
        vec![
            "general".to_string(),
            "general_1".to_string(),
            "general_2".to_string(),
            "general_3".to_string()
        ]
    );
}

#[test]
fn three_entries_give_one_shard() {
    assert_eq!(shard_labels("a", 3), vec!["a".to_string(), "a_1".to_string()]);
}

#[test]
fn data_entries_are_counted_by_name() {
    let names = vec![
        "channel.json".to_string(),
        "0.json".to_string(),
        "1.json".to_string(),
        "notes.txt".to_string(),
        "3".to_string(),
    ];
    assert_eq!(count_data_entries(&names), 3);
    assert_eq!(count_data_entries(&Vec::new()), 0);
}

#[test]
fn entries_that_are_passed_over() {
    assert_eq!(examine_entry(true, "0.json"), Ok(None));
    assert_eq!(examine_entry(false, "server.json"), Ok(None));
    assert_eq!(examine_entry(false, "channel.json"), Ok(None));
    assert_eq!(examine_entry(false, "picture.png"), Ok(None));
    assert_eq!(examine_entry(false, ""), Ok(None));
    assert!(!is_chunk_entry(true, "5.json"));
    assert!(is_chunk_entry(false, "5.json"));
}

#[test]
fn entries_that_are_chunks() {
    assert_eq!(examine_entry(false, "0.json"), Ok(Some(0)));
    assert_eq!(examine_entry(false, "17.json"), Ok(Some(17)));
    assert_eq!(examine_entry(false, "3.json.bak"), Ok(Some(3)));
    assert_eq!(examine_entry(false, "+4.json"), Ok(Some(4)));
    assert_eq!(examine_entry(false, "007.json"), Ok(Some(7)));
}

#[test]
fn data_file_without_a_number_is_an_error() {
    assert_eq!(examine_entry(false, "notes.json"), Err(EntryError::ChunkIndex));
    assert_eq!(examine_entry(false, ".json"), Err(EntryError::ChunkIndex));
    assert_eq!(examine_entry(false, "json"), Err(EntryError::ChunkIndex));
    assert_eq!(examine_entry(false, "-1.json"), Err(EntryError::ChunkIndex));
    assert_eq!(
        examine_entry(false, "99999999999999999999999999.json"),
        Err(EntryError::ChunkIndex)
    );
}

#[test]
fn chunk_index_reads_the_leading_number() {
    assert_eq!(chunk_index("12.json"), Some(12));
    assert_eq!(chunk_index("12"), Some(12));
    assert_eq!(chunk_index("1x.json"), None);
    assert_eq!(chunk_index(&format!("{}.json", usize::MAX)), Some(usize::MAX));
}

#[test]
fn numbers_are_read_as_std_reads_them() {
    let samples = [
        "", "+", "-", "0", "+0", "-0", "00012", "12a", " 12", "12 ", "18446744073709551615",
        "18446744073709551616", "+18446744073709551615", "99999999999999999999", "١٢", "1_000",
        "++1", "4294967296",
    ];
    for s in samples {
        assert_eq!(parse_number(s, u64::MAX), s.parse::<u64>().ok(), "at {s:?}");
    }
    for s in samples {
        let small = s.parse::<u32>().ok().map(|n| n as u64);
        assert_eq!(parse_number(s, u32::MAX as u64), small, "at {s:?}");
    }
}

#[test]
fn numbers_are_written_as_std_writes_them() {
    for n in [0u64, 1, 9, 10, 11, 99, 100, 101, 1420070400000, u64::MAX, u64::MAX - 1] {
        assert_eq!(decimal_text(n), n.to_string());
    }
    for n in 0u64..3000 {
        assert_eq!(decimal_text(n), n.to_string());
    }
}

#[test]
fn text_searches() {
    assert!(contains("0.json", "json"));
    assert!(contains("json", "json"));
    assert!(contains("xjsonx", "json"));
    assert!(contains("anything", ""));
    assert!(contains("", ""));
    assert!(!contains("jso", "json"));
    assert!(!contains("j.s.o.n", "json"));
    assert!(!contains("", "json"));
    assert!(same_text("server.json", "server.json"));
    assert!(!same_text("server.json", "server.jso"));
    assert!(!same_text("server.json", "Server.json"));
    assert!(same_text("", ""));
}

#[test]
fn identifiers_that_are_no_numbers_become_zero() {
    let server = ServerData::from(ServerDataRaw {
        id: "123".to_string(),
        name: "Home".to_string(),
        icon: "icon.png".to_string(),
        owner_id: "not a number".to_string(),
        description: "d".to_string(),
    });
    assert_eq!(server.id, 123);
    assert_eq!(server.owner_id, 0);
    assert_eq!(server.name, "Home");
    assert_eq!(server.icon, "icon.png");
    assert_eq!(server.description, "d");
    let channel = ChannelData::from(ChannelDataRaw {
        id: "".to_string(),
        name: "general".to_string(),
        topic: "talk".to_string(),
    });
    assert_eq!(channel.id, 0);
    assert_eq!(channel.name, "general");
    assert_eq!(channel.topic, "talk");
    let big = ChannelData::from(ChannelDataRaw {
        id: "18446744073709551616".to_string(),
        name: String::new(),
        topic: String::new(),
    });
    assert_eq!(big.id, 0);
}

fn pairs(fields: &Fields) -> Vec<(String, String)> {
    let mut map = std::collections::BTreeMap::new();
    for i in 0..fields.len() {
        map.insert(fields.name_at(i).to_string(), fields.value_at(i).to_string());
    }
    map.into_iter().collect()
}

fn pair(name: &str, value: &str) -> (String, String) {
    (name.to_string(), value.to_string())
}

#[test]
fn server_registers_five_fields() {
    let server = ServerData {
        id: 5,
        name: "Home".to_string(),
        icon: "i.png".to_string(),
        owner_id: 77,
        description: "about".to_string(),
    };
    let mut fields = Fields::new();
    server.register(&mut fields);
    assert_eq!(
        pairs(&fields),
        vec![
            pair("server_description", "about"),
            pair("server_icon", "i.png"),
            pair("server_id", "5"),
            pair("server_name", "Home"),
            pair("server_owner", "77"),
        ]
    );
}

#[test]
fn channel_registers_three_fields() {
    let channel = ChannelData { id: 42, name: "general".to_string(), topic: "talk".to_string() };
    let mut fields = Fields::new();
    fields.insert("channel_name", "old".to_string());
    channel.register(&mut fields);
    assert_eq!(
        pairs(&fields),
        vec![
            pair("channel_id", "42"),
            pair("channel_name", "general"),
            pair("channel_topic", "talk"),
        ]
    );
}

#[test]
fn index_lists_channels_by_identifier() {
    let mut index = ChannelIndex::new();
    index.insert(30, shard_labels("c", 2));
    index.insert(10, shard_labels("a", 4));
    index.insert(20, shard_labels("b", 0));
    index.insert(30, shard_labels("d", 3));
    let ids: Vec<u64> = index.entries.iter().map(|e| e.id).collect();
    assert_eq!(ids, vec![10, 20, 30]);
    assert!(index.is_well_formed());
    let mut unordered = ChannelIndex::new();
    unordered.entries.push(ChannelIndexEntry { id: 2, labels: Vec::new() });
    unordered.entries.push(ChannelIndexEntry { id: 2, labels: Vec::new() });
    assert!(!unordered.is_well_formed());
    assert_eq!(
        index.links(),
        "<a href=\"./10.html\">a</a><br>\n\
         <a href=\"./10_1.html\">a_1</a><br>\n\
         <a href=\"./10_2.html\">a_2</a><br>\n\
         <a href=\"./20.html\">b</a><br>\n\
         <a href=\"./30.html\">d</a><br>\n\
         <a href=\"./30_1.html\">d_1</a><br>\n"
    );
    assert_eq!(ChannelIndex::new().links(), "");
}

#[test]
fn server_without_metadata_is_passed_over() {
    let dirs = [("100", false), ("200", true), ("out", false), ("notes", true), ("300", true)];
    let steps: Vec<ServerStep> =
        dirs.iter().map(|(name, has)| examine_server_dir(name, *has)).collect();
    assert_eq!(
        steps,
        vec![
            ServerStep::MissingMetadata(100),
            ServerStep::Read(200),
            ServerStep::NotAServer,
            ServerStep::NotAServer,
            ServerStep::Read(300),
        ]
    );
}

#[test]
fn server_directory_names() {
    assert_eq!(examine_server_dir("007", true), ServerStep::Read(7));
    assert_eq!(examine_server_dir("", true), ServerStep::NotAServer);
    assert_eq!(examine_server_dir("18446744073709551616", true), ServerStep::NotAServer);
    assert_eq!(examine_server_dir("18446744073709551615", false), ServerStep::MissingMetadata(u64::MAX));
}

#[test]
fn pages_of_different_chunks_have_different_names() {
    let mut seen = std::collections::BTreeSet::new();
    for channel in [1u64, 11, 111, 42] {
        for chunk in 0usize..15 {
            let name = page_name(&decimal_text(channel), chunk);
            assert!(seen.insert(output_path(5, &name)), "twice: {name}");
        }
    }
    assert_eq!(seen.len(), 60);
}

fn listing(name: &str, has_metadata: bool) -> DirListing {
    DirListing { name: name.to_string(), has_metadata }
}

#[test]
fn run_goes_on_past_a_server_without_metadata() {
    let with_gap = vec![listing("100", false), listing("200", true), listing("300", true)];
    let without = vec![listing("200", true), listing("300", true)];
    assert_eq!(plan_servers(&with_gap), vec![200, 300]);
    assert_eq!(plan_servers(&with_gap), plan_servers(&without));
    let gap_in_the_middle = vec![listing("200", true), listing("100", false), listing("300", true)];
    assert_eq!(plan_servers(&gap_in_the_middle), vec![200, 300]);
}

#[test]
fn run_reads_servers_in_the_order_of_the_entries() {
    let dirs = vec![
        listing("30", true),
        listing("out", true),
        listing("10", true),
        listing("index.hbs", false),
        listing("20", true),
        listing("10", true),
    ];
    assert_eq!(plan_servers(&dirs), vec![30, 10, 20, 10]);
    assert_eq!(plan_servers(&Vec::new()), Vec::<u64>::new());
    assert_eq!(plan_servers(&vec![listing("5", false)]), Vec::<u64>::new());
}

#[test]
fn field_set_twice_stands_once() {
    let mut fields = Fields::new();
    fields.insert("a", "1".to_string());
    fields.insert("b", "2".to_string());
    fields.insert("a", "3".to_string());
    fields.insert("c", "4".to_string());
    fields.insert("b", "5".to_string());
    assert_eq!(fields.len(), 3);
    let listed: Vec<(String, String)> = (0..fields.len())
        .map(|i| (fields.name_at(i).to_string(), fields.value_at(i).to_string()))
        .collect();
    assert_eq!(listed, vec![pair("a", "3"), pair("b", "5"), pair("c", "4")]);
}
