use knockd_client::native::{launch_mode, LaunchMode};
use knockd_client::native::{check_message_length, frame_message, message_length, u32_from_ne_bytes, MAX_MESSAGE_LEN};

#[test]
fn message_length_limit() {
    assert_eq!(check_message_length(0), Ok(0));
    assert_eq!(check_message_length(MAX_MESSAGE_LEN), Ok(1048576));
    assert_eq!(check_message_length(MAX_MESSAGE_LEN + 1), Err("msg too large".to_string()));
}

#[test]
fn reply_frame() {
    let f = frame_message(b"{\"success\":true}");
    assert_eq!(&f[..4], &16u32.to_ne_bytes());
    assert_eq!(&f[4..], b"{\"success\":true}");
    assert_eq!(frame_message(b""), 0u32.to_ne_bytes().to_vec());
}

#[test]
fn launch_modes() {
    let args = |v: &[&str]| v.iter().map(|s| s.to_string()).collect::<Vec<String>>();
    assert_eq!(launch_mode(&args(&["knockd", "--activate"])), LaunchMode::Activate);
    assert_eq!(launch_mode(&args(&["knockd", "chrome-extension://abcdef/"])), LaunchMode::NativeHost);
    assert_eq!(launch_mode(&args(&["knockd", "--activate", "chrome-extension://abcdef/"])), LaunchMode::Activate);
    assert_eq!(launch_mode(&args(&["knockd"])), LaunchMode::Gui);
    assert_eq!(launch_mode(&args(&["--activate"])), LaunchMode::Gui);
}

#[test]
fn reply_frame_header_is_one_of_the_byte_orders() {
    let data = vec![7u8; 300];
    let f = frame_message(&data);
    let h = &f[..4];
    assert!(h == 300u32.to_le_bytes() || h == 300u32.to_be_bytes());
    assert_eq!(h, &300u32.to_ne_bytes());
}

#[test]
fn message_header_is_read_back() {
    let f = frame_message(&[1u8; 300]);
    let header = [f[0], f[1], f[2], f[3]];
    assert_eq!(message_length(header), Ok(300));
    assert_eq!(u32_from_ne_bytes(header), 300);
    assert_eq!(message_length((MAX_MESSAGE_LEN + 1).to_ne_bytes()), Err("msg too large".to_string()));
    assert_eq!(message_length(MAX_MESSAGE_LEN.to_ne_bytes()), Ok(1048576));
}
