use copilot_lmstudio_config::indent::detect_indentation;
use copilot_lmstudio_config::json::Json;

#[test]
fn reads_and_writes_a_document() {
    let doc = Json::from_slice(b"{\"a\": [1, 2.5, \"x\", null, true]}").unwrap();
    assert_eq!(doc.to_bytes().unwrap(), b"{\"a\":[1,2.5,\"x\",null,true]}".to_vec());
}

#[test]
fn detects_the_first_indented_line() {
    assert_eq!(detect_indentation("{\n    \"a\": 1\n}"), "    ");
    assert_eq!(detect_indentation("{\n\t\"a\": 1\n}"), "\t");
    assert_eq!(detect_indentation("{}"), "  ");
    assert_eq!(detect_indentation("a\n \r\nb"), " ");
    assert_eq!(detect_indentation("a\n \r"), " \r");
}
