use zhttp::error::RunError;
use zhttp::locate::{find_request_block, request_blocks};
use zhttp::parse::parse_request;

/// A small deterministic source of texts over the characters that matter to
/// the locator and the parser.
struct Texts {
    state: u64,
}

impl Texts {
    fn next(&mut self) -> u64 {
        self.state = self
            .state
            .wrapping_mul(6364136223846793005)
            .wrapping_add(1442695040888963407);
        self.state >> 33
    }

    fn text(&mut self) -> String {
        let alphabet = [
            "\n", "\n", "\n", "\r\n", "\r", " ", " ", "\t", "#", "#", "###", "###\n", "//", "/", ":",
            ":", "a", "b", "GET", "u", "\u{a0}", "\u{e9}", "{}", "\n\n",
        ];
        let len = self.next() % 14;
        let mut s = String::new();
        for _ in 0..len {
            s.push_str(alphabet[(self.next() % alphabet.len() as u64) as usize]);
        }
        s
    }
}

fn blocks_by_std(content: &str) -> Vec<(usize, usize)> {
    let lines: Vec<&str> = content.lines().collect();
    let mut blocks = Vec::new();
    let mut start = 0;
    for (i, line) in lines.iter().enumerate() {
        if line.trim() == "###" {
            if i > start {
                blocks.push((start, i));
            }
            start = i + 1;
        }
    }
    if start < lines.len() {
        blocks.push((start, lines.len()));
    }
    blocks
}

fn block_by_std(content: &str, target: usize) -> Option<String> {
    let lines: Vec<&str> = content.lines().collect();
    blocks_by_std(content)
        .into_iter()
        .find(|(start, end)| target > *start && target <= *end)
        .map(|(start, end)| lines[start..end].join("\n"))
}

type Parsed = (
    Option<String>,
    String,
    String,
    Option<String>,
    Vec<(String, String)>,
    Option<String>,
);

fn request_by_std(block: &str) -> Option<Parsed> {
    let mut name: Option<String> = None;
    let mut method = String::new();
    let mut url = String::new();
    let mut version: Option<String> = None;
    let mut headers = Vec::new();
    let mut body: Vec<&str> = Vec::new();
    let mut phase = 0;
    for line in block.lines() {
        let t = line.trim();
        if t.is_empty() {
            match phase {
                1 => phase = 2,
                2 => body.push(line),
                _ => {}
            }
        } else if t.starts_with('#') || t.starts_with("//") {
            if name.is_none() && t.starts_with("###") && !t.starts_with("####") {
                let rest = t[3..].trim();
                if !rest.is_empty() {
                    name = Some(rest.to_string());
                }
            }
        } else if phase == 2 {
            body.push(line);
        } else if phase == 0 {
            let parts: Vec<&str> = t.splitn(3, ' ').collect();
            if parts.len() >= 2 {
                method = parts[0].to_string();
                url = parts[1].to_string();
                version = parts.get(2).map(|v| v.to_string());
                phase = 1;
            }
        } else if let Some((key, value)) = t.split_once(':') {
            headers.push((key.trim().to_string(), value.trim().to_string()));
        }
    }
    if method.is_empty() || url.is_empty() {
        return None;
    }
    let body = if body.is_empty() { None } else { Some(body.join("\n")) };
    Some((name, method, url, version, headers, body))
}

#[test]
fn the_locator_agrees_with_the_standard_library_on_many_texts() {
    let mut texts = Texts { state: 1 };
    for _ in 0..20000 {
        let content = texts.text();
        assert_eq!(request_blocks(&content), blocks_by_std(&content), "{:?}", content);
        for target in 0..8 {
            match (find_request_block(&content, target), block_by_std(&content, target)) {
                (Ok(found), Some(expected)) => assert_eq!(found, expected, "{:?} {}", content, target),
                (Err(RunError::NoRequestBlock(n)), None) => assert_eq!(n, target),
                (found, expected) => panic!("{:?} {}: {:?} {:?}", content, target, found, expected),
            }
        }
    }
}

#[test]
fn the_parser_agrees_with_the_standard_library_on_many_texts() {
    let mut texts = Texts { state: 7 };
    let mut parsed = 0;
    for _ in 0..60000 {
        let block = texts.text();
        match (parse_request(&block), request_by_std(&block)) {
            (Ok(req), Some(expected)) => {
                parsed += 1;
                let found = (req.name, req.method, req.url, req.http_version, req.headers, req.body);
                assert_eq!(found, expected, "{:?}", block);
            }
            (Err(RunError::ParseFailed(reason)), None) => assert_eq!(reason, "no METHOD URL found"),
            (found, expected) => panic!("{:?}: {:?} {:?}", block, found, expected),
        }
    }
    assert!(parsed > 500, "{}", parsed);
}
