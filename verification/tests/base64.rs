use mcp_stdio_rs::base64::{base64_value, decode_base64};
use mcp_stdio_rs::Fault;

#[test]
fn decodes_base64_image_payload() {
    assert_eq!(decode_base64("aGVsbG8=").unwrap(), b"hello");
}

#[test]
fn decodes_whole_and_padded_groups() {
    assert_eq!(decode_base64("").unwrap(), b"");
    assert_eq!(decode_base64("aGVs").unwrap(), b"hel");
    assert_eq!(decode_base64("aGVsbA==").unwrap(), b"hell");
    assert_eq!(decode_base64("+/+/").unwrap(), [0xfb, 0xff, 0xbf]);
}

#[test]
fn decodes_every_byte() {
    let text = "AAECAwQFBgcICQoLDA0ODxAREhMUFRYXGBkaGxwdHh8gISIjJCUmJygpKissLS4vMDEyMzQ1Njc4OTo7PD0+P0BBQkNERUZHSElKS0xNTk9QUVJTVFVWV1hZWltcXV5fYGFiY2RlZmdoaWprbG1ub3BxcnN0dXZ3eHl6e3x9fn+AgYKDhIWGh4iJiouMjY6PkJGSk5SVlpeYmZqbnJ2en6ChoqOkpaanqKmqq6ytrq+wsbKztLW2t7i5uru8vb6/wMHCw8TFxsfIycrLzM3Oz9DR0tPU1dbX2Nna29zd3t/g4eLj5OXm5+jp6uvs7e7v8PHy8/T19vf4+fr7/P3+/w==";
    let expected: Vec<u8> = (0..=255).collect();
    assert_eq!(decode_base64(text).unwrap(), expected);
}

#[test]
fn passes_over_white_space() {
    assert_eq!(decode_base64(" aG\tVs\r\nbG\x0c8= ").unwrap(), b"hello");
    assert_eq!(decode_base64(" \n ").unwrap(), b"");
}

#[test]
fn takes_padding_at_any_place() {
    assert_eq!(decode_base64("====").unwrap(), [0x04]);
    assert_eq!(decode_base64("A=AA").unwrap(), [0x04, 0x00, 0x00]);
    assert_eq!(decode_base64("AA=B").unwrap(), [0x00, 0x01]);
    assert_eq!(decode_base64("aA==aA==").unwrap(), b"hh");
}

#[test]
fn refuses_the_first_stray_byte() {
    assert!(matches!(decode_base64("aG-V*"), Err(Fault::Base64Byte(b'-'))));
    assert!(matches!(decode_base64("aGVs\u{e9}"), Err(Fault::Base64Byte(0xc3))));
    assert!(matches!(decode_base64("aGVs\x0b"), Err(Fault::Base64Byte(0x0b))));
    assert_eq!(
        decode_base64("*").unwrap_err().messages(),
        ["invalid base64 byte `42`"]
    );
}

#[test]
fn refuses_a_group_that_breaks_off() {
    assert!(matches!(decode_base64("aGVsb"), Err(Fault::Base64Length)));
    assert!(matches!(decode_base64("aGVsbG8"), Err(Fault::Base64Length)));
    assert_eq!(
        decode_base64("a").unwrap_err().messages(),
        ["invalid base64 length"]
    );
}

#[test]
fn values_of_the_alphabet() {
    let alphabet = b"ABCDEFGHIJKLMNOPQRSTUVWXYZabcdefghijklmnopqrstuvwxyz0123456789+/";
    for byte in 0..=255u8 {
        let place = alphabet.iter().position(|letter| *letter == byte);
        assert_eq!(base64_value(byte), place.map(|p| p as u8));
    }
}
