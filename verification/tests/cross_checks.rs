//! Cross-checks on generated inputs: the corrections must give the same
//! bytes as the same corrections done directly on `serde_json`'s own tree,
//! and the text functions must agree with the standard library.

use copilot_lmstudio_config::body::{fix_request_body, fix_response_body};
use copilot_lmstudio_config::forward::{build_upstream_url, forwards_header};
use copilot_lmstudio_config::frame::fix_streaming_chunk;
use copilot_lmstudio_config::indent::detect_indentation;
use copilot_lmstudio_config::models::{build_models_endpoint, compare_text, derive_server_url, Order};
use copilot_lmstudio_config::diff::{decide, DiffDecision};
use serde_json::Value;

fn obj(text: &str) -> Value {
    serde_json::from_str(text).unwrap()
}

fn request_on_values(body: &[u8]) -> Result<Vec<u8>, ()> {
    let mut json: Value = serde_json::from_slice(body).map_err(|_| ())?;
    if let Some(tools) = json.get_mut("tools").and_then(|t| t.as_array_mut()) {
        for tool in tools.iter_mut() {
            let nested = tool.get("function").map_or(false, |f| f.get("parameters").is_some());
            let holder = if nested { tool.get_mut("function").unwrap() } else { tool };
            let parameters_ref = holder.get_mut("parameters");
            if let Some(parameters) = parameters_ref {
                if parameters.is_object() {
                    let params_obj = parameters.as_object_mut().unwrap();
                    if !params_obj.contains_key("type") {
                        params_obj.insert("type".to_string(), Value::String("object".to_string()));
                        if !params_obj.contains_key("properties") {
                            params_obj.insert("properties".to_string(), obj("{}"));
                        }
                    }
                }
            }
        }
    }
    serde_json::to_vec(&json).map_err(|_| ())
}

fn usage_on_values(usage: &mut serde_json::Map<String, Value>) -> bool {
    let mut fixed = false;
    if !usage.contains_key("input_tokens_details") {
        usage.insert("input_tokens_details".to_string(), obj("{\"cached_tokens\": 0}"));
        fixed = true;
    }
    if !usage.contains_key("output_tokens_details") {
        usage.insert("output_tokens_details".to_string(), obj("{\"reasoning_tokens\": 0}"));
        fixed = true;
    }
    fixed
}

fn response_on_values(body: &[u8]) -> Result<Vec<u8>, ()> {
    let mut json: Value = serde_json::from_slice(body).map_err(|_| ())?;
    if let Some(usage) = json.get_mut("usage").and_then(|u| u.as_object_mut()) {
        usage_on_values(usage);
    }
    serde_json::to_vec(&json).map_err(|_| ())
}

fn chunk_on_values(chunk: &[u8]) -> Result<Vec<u8>, ()> {
    let chunk_str = std::str::from_utf8(chunk).map_err(|_| ())?;
    let data_line = match chunk_str.strip_prefix("data: ") {
        Some(rest) => rest.trim(),
        None => return Ok(chunk.to_vec()),
    };
    if data_line == "[DONE]" {
        return Ok(chunk.to_vec());
    }
    let mut json: Value = match serde_json::from_str(data_line) {
        Ok(j) => j,
        Err(_) => return Ok(chunk.to_vec()),
    };
    let mut fixed = false;
    if let Some(response) = json.get_mut("response") {
        if let Some(usage) = response.get_mut("usage").and_then(|u| u.as_object_mut()) {
            fixed = usage_on_values(usage);
        }
    }
    if fixed {
        let fixed_json_str = serde_json::to_string(&json).map_err(|_| ())?;
        Ok(format!("data: {}\n\n", fixed_json_str).into_bytes())
    } else {
        Ok(chunk.to_vec())
    }
}

struct Rng(u64);
impl Rng {
    fn next(&mut self) -> u64 {
        self.0 = self.0.wrapping_mul(6364136223846793005).wrapping_add(1442695040888963407);
        self.0 >> 33
    }
    fn pick<'a>(&mut self, items: &[&'a str]) -> &'a str {
        items[(self.next() % items.len() as u64) as usize]
    }
    fn json(&mut self, depth: u32) -> String {
        let keys = [
            "tools", "function", "parameters", "type", "properties", "usage", "response",
            "input_tokens_details", "output_tokens_details", "x", "é\\\"",
        ];
        let leaves = ["null", "true", "1", "-0", "1.5e3", "0.1", "\"s\"", "\"\\u00e9\\n\"", "{}", "[]", "12345678901234567890123", "1e400"];
        let choice = if depth == 0 { 9 } else { self.next() % 10 };
        match choice {
            0..=4 => {
                let n = self.next() % 4;
                let mut out = String::from("{");
                for i in 0..n {
                    if i > 0 {
                        out.push(',');
                    }
                    out.push(' ');
                    out.push('"');
                    out.push_str(self.pick(&keys));
                    out.push_str("\" :");
                    out.push_str(&self.json(depth - 1));
                }
                out.push('}');
                out
            }
            5..=6 => {
                let n = self.next() % 4;
                let mut out = String::from("[");
                for i in 0..n {
                    if i > 0 {
                        out.push(',');
                    }
                    out.push_str(&self.json(depth - 1));
                }
                out.push(']');
                out
            }
            _ => self.pick(&leaves).to_string(),
        }
    }
}

#[test]
fn bodies_agree_with_the_corrections_on_serde_values() {
    let mut rng = Rng(7);
    let mut changed = 0;
    for round in 0..40000 {
        let doc = if round % 2 == 0 {
            rng.json(6)
        } else {
            let mut out = String::from("{\"tools\":[");
            let n = rng.next() % 4;
            for i in 0..n {
                if i > 0 {
                    out.push(',');
                }
                match rng.next() % 4 {
                    0 => out.push_str(&format!("{{\"function\":{{\"parameters\":{}}}}}", rng.json(2))),
                    1 => out.push_str(&format!("{{\"parameters\":{}}}", rng.json(2))),
                    2 => out.push_str(&format!("{{\"parameters\":{},\"function\":{}}}", rng.json(2), rng.json(3))),
                    _ => out.push_str(&rng.json(4)),
                }
            }
            out.push_str(&format!("],\"usage\":{}}}", rng.json(2)));
            out
        };
        let body = doc.as_bytes();
        let expected = request_on_values(body);
        let got = fix_request_body(body).map_err(|_| ());
        assert_eq!(got, expected, "request {}", doc);
        if let Ok(out) = &got {
            if serde_json::from_slice::<Value>(out).unwrap() != serde_json::from_slice::<Value>(body).unwrap() {
                changed += 1;
            }
            assert_eq!(fix_request_body(out).map_err(|_| ()), Ok(out.clone()), "twice {}", doc);
        }
        let expected = response_on_values(body);
        let got = fix_response_body(body).map_err(|_| ());
        assert_eq!(got, expected, "response {}", doc);
        if let Ok(out) = &got {
            assert_eq!(fix_response_body(out).map_err(|_| ()), Ok(out.clone()), "twice {}", doc);
        }
    }
    assert!(changed > 3000, "changed {}", changed);
}

#[test]
fn chunks_agree_with_the_corrections_on_serde_values() {
    let mut rng = Rng(11);
    let lead = ["data: ", "data: data: ", "data:", " data: ", "", "event: x\ndata: ", "data: \u{a0}", "data:  "];
    let tail = ["\n\n", "", "\n", " \r\n\r\n", "\u{2003}", "\n\ndata: [DONE]\n\n", "x"];
    let mut changed = 0;
    for round in 0..40000 {
        let mut chunk = String::new();
        chunk.push_str(rng.pick(&lead));
        if round % 50 == 0 {
            chunk.push_str("[DONE]");
        } else if round % 2 == 0 {
            chunk.push_str("{\"response\":");
            chunk.push_str(&rng.json(4));
            chunk.push_str("}");
        } else {
            chunk.push_str(&rng.json(5));
        }
        chunk.push_str(rng.pick(&tail));
        let mut bytes = chunk.clone().into_bytes();
        if round % 97 == 0 {
            bytes.push(0xff);
        }
        let expected = chunk_on_values(&bytes);
        let got = fix_streaming_chunk(&bytes).map_err(|_| ());
        if got.as_ref().ok() != Some(&bytes) {
            changed += 1;
        }
        assert_eq!(got, expected, "chunk {:?}", chunk);
    }
    assert!(changed > 200, "changed {}", changed);
}

fn indent_by_lines(content: &str) -> String {
    for line in content.lines() {
        if line.starts_with(' ') || line.starts_with('\t') {
            let indent = line.chars().take_while(|c| c.is_whitespace()).collect::<String>();
            if !indent.is_empty() {
                return indent;
            }
        }
    }
    "  ".to_string()
}

fn server_by_trimming(base_url: &str) -> String {
    let base = base_url.trim_end_matches("/v1").trim_end_matches('/');
    if let Some(idx) = base.rfind(':') {
        let host_part = &base[..idx];
        format!("{}:1234", host_part)
    } else {
        "http://localhost:1234".to_string()
    }
}

#[test]
fn text_functions_agree_with_the_standard_library() {
    let mut rng = Rng(3);
    let pieces = [" ", "\t", "\n", "\r", "\r\n", "a", "{", "\u{a0}", "\u{2003}", "\u{85}", "é", "\u{b}", "\u{c}", "/", "/v1", ":", "v1", "1", "y", "Y", "yes", "YES", "e", "s", "S", "İ", "ſ", "-", "sec-", "host", "connection", "content-length", "accept-encoding", "?"];
    for _ in 0..60000 {
        let n = rng.next() % 8;
        let mut text = String::new();
        for _ in 0..n {
            text.push_str(rng.pick(&pieces));
        }
        assert_eq!(detect_indentation(&text), indent_by_lines(&text), "indent {:?}", text);
        assert_eq!(derive_server_url(&text), server_by_trimming(&text), "server {:?}", text);
        assert_eq!(build_models_endpoint(&text), format!("{}/api/v0/models", text.trim_end_matches('/')), "endpoint {:?}", text);
        let said = text.trim().to_lowercase();
        let expected = if said == "y" || said == "yes" { DiffDecision::Apply } else { DiffDecision::Cancel };
        assert_eq!(decide(&text), expected, "decide {:?}", text);
        let name_str = text.as_str();
        let skip = name_str == "host" || name_str.starts_with("sec-") || name_str == "connection" || name_str == "accept-encoding" || name_str == "content-length";
        assert_eq!(forwards_header(name_str), !skip, "forward {:?}", text);
        let m = rng.next() % 6;
        let mut other = String::new();
        for _ in 0..m {
            other.push_str(rng.pick(&pieces));
        }
        let expected = match text.as_str().cmp(other.as_str()) {
            std::cmp::Ordering::Less => Order::Before,
            std::cmp::Ordering::Equal => Order::Same,
            std::cmp::Ordering::Greater => Order::After,
        };
        assert_eq!(compare_text(&text, &other), expected, "compare {:?} {:?}", text, other);
        let url = if other.is_empty() { format!("{}{}", text.trim_end_matches('/'), "/p") } else { format!("{}{}?{}", text.trim_end_matches('/'), "/p", other) };
        assert_eq!(build_upstream_url(&text, "/p", &other), url);
    }
}
