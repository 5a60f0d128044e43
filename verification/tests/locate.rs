use zhttp::error::RunError;
use zhttp::locate::{blocks_of, find_request_block, is_separator_line, request_blocks};

const THREE: &str = "GET https://first.com\n###\nPOST https://second.com\nA: b\n###\nDELETE https://third.com";

#[test]
fn separator_is_three_hashes_and_whitespace() {
    let yes = ["###", " ###", "###  ", "\t###\t", "\u{a0}###"];
    let no = ["", "##", "####", "### x", "# ##", "//", "###\u{200b}"];
    for s in yes {
        assert!(is_separator_line(&s.chars().collect()), "{:?}", s);
    }
    for s in no {
        assert!(!is_separator_line(&s.chars().collect()), "{:?}", s);
    }
}

#[test]
fn blocks_are_the_runs_between_separators() {
    assert_eq!(request_blocks(THREE), vec![(0, 1), (2, 4), (5, 6)]);
    assert_eq!(request_blocks(""), vec![]);
    assert_eq!(request_blocks("###"), vec![]);
    assert_eq!(request_blocks("###\n###\n###"), vec![]);
    assert_eq!(request_blocks("a"), vec![(0, 1)]);
    assert_eq!(request_blocks("###\na\n###"), vec![(1, 2)]);
    assert_eq!(request_blocks("a\n###\n###\nb\n"), vec![(0, 1), (3, 4)]);
    let ls: Vec<Vec<char>> = vec!["a".chars().collect(), " ### ".chars().collect(), "b".chars().collect()];
    assert_eq!(blocks_of(&ls), vec![(0, 1), (2, 3)]);
}

#[test]
fn every_line_of_a_block_finds_the_block() {
    assert_eq!(find_request_block(THREE, 1).unwrap(), "GET https://first.com");
    assert_eq!(find_request_block(THREE, 3).unwrap(), "POST https://second.com\nA: b");
    assert_eq!(find_request_block(THREE, 4).unwrap(), "POST https://second.com\nA: b");
    assert_eq!(find_request_block(THREE, 6).unwrap(), "DELETE https://third.com");
}

#[test]
fn a_separator_line_is_in_no_block() {
    assert!(matches!(find_request_block(THREE, 2), Err(RunError::NoRequestBlock(2))));
    assert!(matches!(find_request_block(THREE, 5), Err(RunError::NoRequestBlock(5))));
    assert!(matches!(find_request_block("###", 1), Err(RunError::NoRequestBlock(1))));
}

#[test]
fn line_zero_and_lines_past_the_end_are_in_no_block() {
    assert!(matches!(find_request_block(THREE, 0), Err(RunError::NoRequestBlock(0))));
    assert!(matches!(find_request_block(THREE, 7), Err(RunError::NoRequestBlock(7))));
    assert!(matches!(find_request_block("", 1), Err(RunError::NoRequestBlock(1))));
    assert!(matches!(
        find_request_block("a", usize::MAX),
        Err(RunError::NoRequestBlock(usize::MAX))
    ));
}

#[test]
fn a_lone_separator_at_the_start_opens_no_empty_block() {
    let content = "###\nGET https://example.com";
    assert_eq!(request_blocks(content), vec![(1, 2)]);
    assert_eq!(find_request_block(content, 2).unwrap(), "GET https://example.com");
    assert!(matches!(find_request_block(content, 1), Err(RunError::NoRequestBlock(1))));
}

#[test]
fn a_block_keeps_its_blank_lines_and_drops_carriage_returns() {
    let content = "GET https://a\r\n\r\nbody\r\n###\r\nGET https://b\n";
    assert_eq!(find_request_block(content, 1).unwrap(), "GET https://a\n\nbody");
    assert_eq!(find_request_block(content, 2).unwrap(), "GET https://a\n\nbody");
    assert_eq!(find_request_block(content, 5).unwrap(), "GET https://b");
}

#[test]
fn blocks_and_separators_give_the_text_back() {
    let content = THREE;
    let mut out = String::new();
    for (k, (start, _)) in request_blocks(content).iter().enumerate() {
        if k > 0 {
            out.push_str("\n###\n");
        }
        out.push_str(&find_request_block(content, start + 1).unwrap());
    }
    assert_eq!(out, content);
}
