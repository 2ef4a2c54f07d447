use powerplan::command::{run_capture_dynamic_outcome, run_capture_outcome};
use powerplan::decode::decode_output;

fn utf16le(s: &str) -> Vec<u8> {
    s.encode_utf16().flat_map(|u| u.to_le_bytes()).collect()
}

#[test]
fn utf16_with_byte_order_mark() {
    let mut bytes = vec![0xFF, 0xFE];
    bytes.extend(utf16le("电源 OK"));
    assert_eq!(decode_output(&bytes), "电源 OK");
    let mut odd = vec![0xFF, 0xFE];
    odd.extend(utf16le("ab"));
    odd.push(b'x');
    assert_eq!(decode_output(&odd), "ab");
}

#[test]
fn short_mark_is_not_utf16() {
    let bytes = [0xFF, 0xFE];
    let (expected, _, _) = encoding_rs::GB18030.decode(&bytes);
    assert_eq!(decode_output(&bytes), expected);
}

#[test]
fn utf16_guessed_from_zero_bytes() {
    let text = "A".repeat(51);
    assert_eq!(decode_output(&utf16le(&text)), text);
    let fifty = utf16le(&"A".repeat(50));
    assert_eq!(decode_output(&fifty), "A\u{0}".repeat(50));
}

#[test]
fn unpaired_surrogate_becomes_replacement() {
    let mut bytes = vec![0xFF, 0xFE, 0x00, 0xD8];
    bytes.extend(utf16le("z"));
    assert_eq!(decode_output(&bytes), "\u{FFFD}z");
}

#[test]
fn utf8_and_gb18030() {
    assert_eq!(decode_output("子组 GUID: x".as_bytes()), "子组 GUID: x");
    assert_eq!(decode_output(b""), "");
    let (gb, _, _) = encoding_rs::GB18030.encode("当前直流电源设置索引: 0x1");
    assert_eq!(decode_output(&gb), "当前直流电源设置索引: 0x1");
}

#[test]
fn command_outcomes() {
    let args = vec!["query".to_string(), "LITSSVC".to_string()];
    assert_eq!(
        run_capture_outcome("sc", &args, b"out ", b"err", true, Some(0)),
        Ok("out err".to_string())
    );
    assert_eq!(
        run_capture_outcome("sc", &args, b"  FAILED 1060  \r\n", b"", false, Some(1060)),
        Err("命令退出码 Some(1060): sc query LITSSVC | 输出: FAILED 1060".to_string())
    );
    assert_eq!(
        run_capture_outcome("sc", &Vec::new(), b"", b"", false, None),
        Err("命令退出码 None: sc  | 输出: ".to_string())
    );
    assert_eq!(
        run_capture_dynamic_outcome("schtasks", &args, b"", b" no \n", false, Some(-1)),
        Err("鍛戒护閫€鍑虹爜 Some(-1): schtasks query LITSSVC | 杈撳嚭: no".to_string())
    );
}

#[test]
fn utf8_text_reads_back() {
    for text in ["", "a", "Subgroup GUID: x", "子组 GUID: 54533251-82be-4824-96c1-47b60b740d00", "\u{10348}"] {
        assert_eq!(decode_output(text.as_bytes()), text);
    }
}

#[test]
fn ascii_utf16le_without_mark_reads_back() {
    let text = "Current DC Power Setting Index: 0x00000064 and more text here, past fifty.";
    let bytes: Vec<u8> = text.bytes().flat_map(|b| [b, 0u8]).collect();
    assert_eq!(decode_output(&bytes), text);
}

#[test]
fn surrogate_pairs_decode_together() {
    let mut bytes = vec![0xFF, 0xFE];
    bytes.extend(utf16le("\u{1F600}x"));
    bytes.extend([0x00, 0xDC, 0x00, 0xD8, 0x41, 0x00]);
    assert_eq!(decode_output(&bytes), "\u{1F600}x\u{FFFD}\u{FFFD}A");
}

#[test]
fn runners_agree_on_success() {
    let args = vec!["/list".to_string()];
    for (out, ok) in [(&b"fine"[..], true), (&b"bad"[..], false)] {
        let fixed = run_capture_outcome("powercfg", &args, out, b"", ok, Some(0));
        let dynamic = run_capture_dynamic_outcome("powercfg", &args, out, b"", ok, Some(0));
        assert_eq!(fixed.is_ok(), dynamic.is_ok());
        if ok {
            assert_eq!(fixed, dynamic);
        }
    }
}
