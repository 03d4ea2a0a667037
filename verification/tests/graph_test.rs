use dagzet::dagzet::DagZet;
use dagzet::model::ReturnCode;
use dagzet::resolve::doubledot;

fn run(lines: &[&str]) -> DagZet {
    let mut dz = DagZet::new();
    for line in lines {
        dz.parse_line(line);
    }
    dz
}

#[test]
fn empty_line_is_fine_and_changes_nothing() {
    let mut dz = run(&["ns top", "nn aaa"]);
    assert!(matches!(dz.parse_line_with_result(""), Ok(ReturnCode::Okay)));
    assert_eq!(dz.nodelist.len(), 1);
    assert_eq!(dz.curnode, Some(1));
}

#[test]
fn short_line_is_an_error() {
    let mut dz = DagZet::new();
    assert!(matches!(dz.parse_line_with_result("n"), Err(ReturnCode::Error)));
    assert!(matches!(dz.parse_line_with_result("ns"), Err(ReturnCode::Error)));
    assert_eq!(dz.namespace, None);
}

#[test]
fn three_characters_give_an_empty_argument() {
    let mut dz = DagZet::new();
    assert!(dz.parse_line_with_result("ns ").is_ok());
    assert_eq!(dz.namespace, Some(String::new()));
}

#[test]
fn characters_are_counted_not_bytes() {
    let mut dz = DagZet::new();
    assert!(dz.parse_line_with_result("ns äö").is_ok());
    assert_eq!(dz.namespace, Some("äö".to_string()));
    assert!(matches!(dz.parse_line_with_result("éé x"), Err(ReturnCode::InvalidCommand)));
}

#[test]
fn unfinished_directives_are_invalid() {
    let mut dz = run(&["ns top", "nn aaa"]);
    assert!(matches!(dz.parse_line_with_result("eq x"), Err(ReturnCode::InvalidCommand)));
    assert!(matches!(dz.parse_line_with_result("pg x"), Err(ReturnCode::InvalidCommand)));
    assert!(matches!(dz.parse_line_with_result("al x"), Err(ReturnCode::InvalidCommand)));
}

#[test]
fn ids_count_from_one_in_order_of_creation() {
    let dz = run(&["ns top", "nn aaa", "nn bbb", "ns pot", "nn aaa", "nn ccc"]);
    let names = ["top/aaa", "top/bbb", "pot/aaa", "pot/ccc"];
    assert_eq!(dz.nodelist.len(), 4);
    assert_eq!(dz.nodes.len(), dz.nodelist.len());
    for (i, name) in names.iter().enumerate() {
        assert_eq!(dz.nodelist[i], *name);
        assert_eq!(dz.nodes.get(name), Some(&(i as u32 + 1)));
    }
    assert_eq!(dz.curnode, Some(4));
}

#[test]
fn second_declaration_fails_and_changes_nothing() {
    let mut dz = run(&["ns top", "nn aaa", "ln one", "nn bbb"]);
    let result = dz.parse_line_with_result("nn aaa");
    assert!(matches!(result, Err(ReturnCode::NodeAlreadyExists)));
    assert_eq!(dz.nodelist, vec!["top/aaa".to_string(), "top/bbb".to_string()]);
    assert_eq!(dz.nodes.len(), 2);
    assert_eq!(dz.curnode, Some(2));
    assert_eq!(dz.lines.len(), 1);
}

#[test]
fn connections_are_ordered_pairs() {
    let mut dz = run(&["ns top", "co a b"]);
    assert!(matches!(dz.parse_line_with_result("co a b"), Err(ReturnCode::AlreadyConnected)));
    assert_eq!(dz.connections.len(), 1);
    assert!(matches!(dz.parse_line_with_result("co b a"), Ok(ReturnCode::Okay)));
    assert_eq!(dz.connections.len(), 2);
    assert_eq!(dz.connections[1][0], "top/b");
    assert_eq!(dz.connections[1][1], "top/a");
}

#[test]
fn names_keep_their_case() {
    let mut dz = run(&["ns top", "co a b"]);
    assert!(dz.parse_line_with_result("co A b").is_ok());
    assert_eq!(dz.connections.len(), 2);
}

#[test]
fn dollar_needs_a_node_and_then_names_it() {
    let mut dz = run(&["ns top"]);
    assert!(matches!(dz.parse_line_with_result("co $ y"), Err(ReturnCode::NodeNotSelected)));
    assert!(matches!(dz.parse_line_with_result("co y $"), Err(ReturnCode::NodeNotSelected)));
    assert_eq!(dz.connections.len(), 0);
    dz.parse_line("nn x");
    assert!(dz.parse_line_with_result("co $ y").is_ok());
    assert_eq!(dz.connections[0][0], "top/x");
    assert_eq!(dz.connections[0][1], "top/y");
}

#[test]
fn connect_needs_the_namespace_first() {
    let mut dz = DagZet::new();
    assert!(matches!(dz.parse_line_with_result("co a"), Err(ReturnCode::NameSpaceNotSet)));
    assert!(matches!(dz.parse_line_with_result("gr x"), Err(ReturnCode::NameSpaceNotSet)));
    assert!(matches!(dz.parse_line_with_result("sn x"), Err(ReturnCode::NameSpaceNotSet)));
}

#[test]
fn doubledot_steps_to_the_parent() {
    assert_eq!(doubledot("ns/a/b", "../c"), "ns/a/c");
    assert_eq!(doubledot("ns/a/b", "../../c/d"), "ns/c/d");
    assert_eq!(doubledot("ns/a", "../../../x"), "x");
    assert_eq!(doubledot("ns/a/b", ".."), "ns/a");
}

#[test]
fn relative_token_resolves_from_the_current_node() {
    let mut dz = run(&["ns ns", "nn a/b", "co ../c $"]);
    assert_eq!(dz.connections.len(), 1);
    assert_eq!(dz.connections[0][0], "ns/a/c");
    assert_eq!(dz.connections[0][1], "ns/a/b");
    let mut fresh = run(&["ns ns"]);
    assert!(matches!(fresh.parse_line_with_result("co ../c d"), Err(ReturnCode::NodeNotSelected)));
    assert!(dz.parse_line_with_result("co x ../y").is_ok());
    assert_eq!(dz.connections[1][1], "ns/a/y");
}

#[test]
fn caret_is_a_plain_name_in_connect() {
    let dz = run(&["ns top", "co ^ b"]);
    assert_eq!(dz.connections[0][0], "top/^");
}

#[test]
fn cross_connect_shorthands() {
    let mut dz = DagZet::new();
    assert!(matches!(dz.parse_line_with_result("cx $ a/b"), Err(ReturnCode::NodeNotSelected)));
    assert!(matches!(dz.parse_line_with_result("cx ^ a/b"), Err(ReturnCode::NoConnections)));
    dz.parse_line("ns top");
    dz.parse_line("nn x");
    assert!(dz.parse_line_with_result("cx $ other/y").is_ok());
    assert_eq!(dz.connections[0][0], "top/x");
    assert_eq!(dz.connections[0][1], "other/y");
    assert!(dz.parse_line_with_result("cx ^ other/z").is_ok());
    assert_eq!(dz.connections[1][0], "top/x");
    assert_eq!(dz.connections[1][1], "other/z");
    assert!(dz.parse_line_with_result("cx other/w ^").is_ok());
    assert_eq!(dz.connections[2][0], "other/w");
    assert_eq!(dz.connections[2][1], "other/z");
    assert!(dz.parse_line_with_result("cx $ $").is_ok());
    assert_eq!(dz.connections[3][0], "top/x");
    assert_eq!(dz.connections[3][1], "top/x");
    assert!(dz.xnodes.contains("other/y"));
    assert!(dz.xnodes.contains("top/x"));
    assert_eq!(dz.xnodes.len(), 4);
}

#[test]
fn cross_connect_takes_no_relative_token() {
    let dz = run(&["ns top", "nn a/b", "cx ../c d"]);
    assert_eq!(dz.connections[0][0], "../c");
}

#[test]
fn alias_is_refused() {
    let mut dz = DagZet::new();
    assert!(matches!(dz.parse_line_with_result("cx @a b/c"), Err(ReturnCode::Error)));
    assert!(matches!(dz.parse_line_with_result("cx a/b @c"), Err(ReturnCode::Error)));
    assert_eq!(dz.connections.len(), 0);
    assert_eq!(dz.xnodes.len(), 0);
}

#[test]
fn tags_are_all_or_nothing() {
    let mut dz = run(&["ns top", "nn a", "tg one two"]);
    assert!(matches!(dz.parse_line_with_result("tg three one four"), Err(ReturnCode::Error)));
    assert_eq!(dz.tags[&1], vec!["one".to_string(), "two".to_string()]);
    assert!(matches!(dz.parse_line_with_result("tg x y x"), Err(ReturnCode::Error)));
    assert_eq!(dz.tags[&1].len(), 2);
    dz.parse_line("nn b");
    assert!(matches!(dz.parse_line_with_result("tg p q p"), Err(ReturnCode::Error)));
    assert!(!dz.tags.contains_key(&2));
}

#[test]
fn hyperlink_takes_the_first_token() {
    let mut dz = run(&["ns top", "nn a", "hl  http://a.b   rest"]);
    assert_eq!(dz.hyperlinks[&1], "http://a.b");
    assert!(matches!(dz.parse_line_with_result("hl   "), Err(ReturnCode::NotEnoughArgs)));
    let mut none = DagZet::new();
    assert!(matches!(none.parse_line_with_result("hl "), Err(ReturnCode::NotEnoughArgs)));
}

#[test]
fn todo_takes_the_whole_argument() {
    let mut dz = run(&["ns top", "nn a", "td  two  words "]);
    assert_eq!(dz.todos[&1], " two  words ");
    assert!(dz.parse_line_with_result("td ").is_ok());
    assert_eq!(dz.todos[&1], "");
}

#[test]
fn file_range_bounds() {
    let mut dz = run(&["ns top", "nn a"]);
    assert!(matches!(dz.parse_line_with_result("fr "), Err(ReturnCode::NotEnoughArgs)));
    assert!(matches!(dz.parse_line_with_result("fr f 3 2"), Err(ReturnCode::Error)));
    assert!(matches!(dz.parse_line_with_result("fr f 1 x"), Err(ReturnCode::Error)));
    assert!(matches!(dz.parse_line_with_result("fr f 99999999999"), Err(ReturnCode::Error)));
    assert!(matches!(dz.parse_line_with_result("fr $ 1 2"), Err(ReturnCode::Error)));
    assert!(!dz.file_ranges.contains_key(&1));
    assert!(dz.parse_line_with_result("fr f 2 2").is_ok());
    assert_eq!(dz.file_ranges[&1].start, 2);
    assert_eq!(dz.file_ranges[&1].end, 2);
    assert!(dz.parse_line_with_result("fr g +7 2147483647").is_ok());
    assert_eq!(dz.file_ranges[&1].filename, "g");
    assert_eq!(dz.file_ranges[&1].start, 7);
    assert_eq!(dz.file_ranges[&1].end, 2147483647);
    assert!(dz.parse_line_with_result("fr $").is_ok());
    assert_eq!(dz.file_ranges[&1].filename, "g");
    assert_eq!(dz.file_ranges[&1].start, -1);
    assert!(dz.parse_line_with_result("fr h -2147483648").is_ok());
    assert_eq!(dz.file_ranges[&1].start, -2147483648);
}

#[test]
fn select_needs_a_known_name() {
    let mut dz = run(&["ns top", "nn a", "nn b"]);
    assert!(matches!(dz.parse_line_with_result("sn c"), Err(ReturnCode::Error)));
    assert!(matches!(dz.parse_line_with_result("sn  "), Err(ReturnCode::Error)));
    assert_eq!(dz.curnode, Some(2));
    assert!(dz.parse_line_with_result("sn a ignored").is_ok());
    assert_eq!(dz.curnode, Some(1));
}

#[test]
fn remarks_on_the_last_connection() {
    let dz = run(&["ns top", "co a b", "cr one", "co b c", "cr two", "cr three"]);
    assert_eq!(dz.connection_remarks[&0], vec!["one".to_string()]);
    assert_eq!(dz.connection_remarks[&1], vec!["two".to_string(), "three".to_string()]);
}

#[test]
fn remarked_namespaces_are_kept_in_order() {
    let dz = run(&["ns b", "gr one", "ns a", "gr two", "ns b", "gr three"]);
    assert_eq!(dz.remarked, vec!["b".to_string(), "a".to_string()]);
    assert_eq!(dz.graph_remarks.get("b").unwrap().len(), 2);
    assert_eq!(dz.graph_remarks.len(), 2);
}

#[test]
fn unknown_nodes_are_listed_once() {
    let dz = run(&[
        "ns ns",
        "nn aaa",
        "nn bbb",
        "co aaa bbb",
        "co aaa ccc",
        "co ccc ddd",
        "co ddd aaa",
        "cx ns/ccc out/x",
    ]);
    let mut plain = run(&["ns ns", "nn aaa", "nn bbb", "co aaa bbb", "co aaa ccc", "co ccc ddd"]);
    assert_eq!(plain.check_unknown_nodes(), vec!["ns/ccc".to_string(), "ns/ddd".to_string()]);
    assert_eq!(dz.check_unknown_nodes(), vec!["ns/ddd".to_string()]);
    plain.parse_line("nn ccc");
    plain.parse_line("nn ddd");
    assert!(plain.check_unknown_nodes().is_empty());
}

#[test]
fn edges_leave_out_what_is_no_node() {
    let dz = run(&["ns t", "nn a", "nn b", "co b a", "co a x", "co x b", "co a b"]);
    assert_eq!(dz.generate_edges(), vec![[2, 1], [1, 2]]);
}

#[test]
fn a_dag_has_no_loops() {
    let mut dz = run(&[
        "ns t", "nn a", "nn b", "nn c", "nn d", "co a b", "co a c", "co b d", "co c d", "co a d",
    ]);
    let edges = dz.generate_edges();
    assert!(matches!(dz.check_for_loops(&edges), Ok(ReturnCode::Okay)));
    let none: Vec<[u32; 2]> = Vec::new();
    assert!(dz.check_for_loops(&none).is_ok());
}

#[test]
fn a_reverse_edge_is_reported_with_its_edge() {
    let mut dz = run(&[
        "ns t", "nn a", "nn b", "nn c", "nn d", "co a b", "co b c", "co c d", "co a d", "co c b",
    ]);
    let edges = dz.generate_edges();
    assert_eq!(dz.check_for_loops(&edges), Err(vec![[2, 3], [3, 2]]));
}

#[test]
fn a_longer_cycle_is_reported_in_full() {
    let mut dz = run(&["ns t", "nn a", "nn b", "nn c", "nn d", "co d a", "co a b", "co b c", "co c a"]);
    let edges = dz.generate_edges();
    assert_eq!(dz.check_for_loops(&edges), Err(vec![[1, 2], [2, 3], [3, 1]]));
}

#[test]
fn edges_behind_a_cycle_stay_but_only_the_pair_is_reported() {
    let mut dz = run(&["ns t", "nn a", "nn b", "nn c", "co a b", "co b a", "co b c"]);
    let edges = dz.generate_edges();
    assert_eq!(dz.check_for_loops(&edges), Err(vec![[1, 2], [2, 1]]));
}

#[test]
fn an_edge_from_no_node_is_left_over() {
    let mut dz = run(&["ns t", "nn a"]);
    assert_eq!(dz.check_for_loops(&[[7, 1]]), Err(vec![[7, 1]]));
}

#[test]
fn repeated_edges_are_all_removed() {
    let mut dz = run(&["ns t", "nn a", "nn b"]);
    assert!(dz.check_for_loops(&[[1, 2], [1, 2]]).is_ok());
}

#[test]
fn codes_have_their_words() {
    assert_eq!(ReturnCode::Okay.message(), "Everything is okay!");
    assert_eq!(ReturnCode::Error.message(), "Something went wrong.");
    assert_eq!(ReturnCode::InvalidCommand.message(), "Invalid command");
    assert_eq!(ReturnCode::NameSpaceNotSet.message(), "Namespace not set");
    assert_eq!(ReturnCode::NodeAlreadyExists.message(), "Node Already Exists");
    assert_eq!(ReturnCode::NodeNotSelected.message(), "Node Not Selected.");
    assert_eq!(ReturnCode::NotEnoughArgs.message(), "Not Enough arguments");
    assert_eq!(ReturnCode::AlreadyConnected.message(), "Already connected");
    assert_eq!(ReturnCode::NoConnections.message(), "No connections made");
}
