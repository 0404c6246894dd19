use celestia::commands::status::{data_size, status_frame, FrameStep, check_packet_id, handshake_packet, server_ip, server_port, status_request_packet, PacketError, ResponseError};
use celestia::package::server::accepted_eula;
use celestia::package::server::properties::{property_value, GetValueError};
use celestia::text::{contains_text, eq_ignore_ascii_case, replace_all};
use celestia::varint::{decode, encode, VarIntError};

#[test]
fn substring_search() {
    assert!(contains_text("[12:00:01 INFO]: Done (3.2s)! For help, type \"help\"", "s)! For help, type \"help\""));
    assert!(contains_text("abc", ""));
    assert!(contains_text("abc", "abc"));
    assert!(!contains_text("ab", "abc"));
    assert!(!contains_text("Stopping the server", "Stopping server"));
}

#[test]
fn case_insensitive_equality() {
    assert!(eq_ignore_ascii_case("Paper", "pAPER"));
    assert!(!eq_ignore_ascii_case("Paper", "Papers"));
    assert!(!eq_ignore_ascii_case("é", "É"));
}

#[test]
fn replacement() {
    assert_eq!(replace_all("aaa", "aa", "b"), "ba");
    assert_eq!(replace_all("xyz", "q", "r"), "xyz");
    assert_eq!(accepted_eula("#EULA\neula=false\n"), "#EULA\neula=true\n");
    assert_eq!(accepted_eula("eula=eula=falsefalse"), "eula=eula=truefalse");
}

#[test]
fn properties_lookup() {
    let contents = "#Minecraft server properties\r\nserver-ip=\r\nserver-port=25570\r\nmotd=a=b\n";
    assert_eq!(property_value(contents, "server-port").as_deref(), Some("25570"));
    assert_eq!(property_value(contents, "motd").as_deref(), Some("a=b"));
    assert_eq!(property_value(contents, "server-ip").as_deref(), Some(""));
    assert_eq!(property_value(contents, "level-name"), None);
    assert_eq!(property_value("server-port =1", "server-port"), None);
}

#[test]
fn local_server_address() {
    assert_eq!(server_ip("server-ip=\n"), "127.0.0.1");
    assert_eq!(server_ip("motd=x\n"), "127.0.0.1");
    assert_eq!(server_ip("server-ip=10.0.0.5\n"), "10.0.0.5");
    assert_eq!(server_port("server-port=25570\n").unwrap(), 25570);
    assert_eq!(server_port("motd=x\n").unwrap(), 25565);
    assert!(matches!(server_port("server-port=70000\n"), Err(GetValueError::Parse)));
    assert!(matches!(server_port("server-port=abc\n"), Err(GetValueError::Parse)));
}

#[test]
fn varints() {
    assert_eq!(encode(0), vec![0]);
    assert_eq!(encode(1), vec![1]);
    assert_eq!(encode(127), vec![0x7f]);
    assert_eq!(encode(128), vec![0x80, 0x01]);
    assert_eq!(encode(25565), vec![0xdd, 0xc7, 0x01]);
    assert_eq!(encode(-1), vec![0xff, 0xff, 0xff, 0xff, 0x0f]);
    assert_eq!(decode(&[0xdd, 0xc7, 0x01, 0x99]).unwrap(), (25565, 3));
    assert_eq!(decode(&[0xff, 0xff, 0xff, 0xff, 0x0f]).unwrap(), (-1, 5));
    assert_eq!(decode(&[0x80]).unwrap_err(), VarIntError::Incomplete);
    assert_eq!(decode(&[0x80, 0x80, 0x80, 0x80, 0x80]).unwrap_err(), VarIntError::TooBig);
    for v in [0, 1, 300, i32::MAX, i32::MIN, -25565] {
        let bytes = encode(v);
        assert_eq!(decode(&bytes).unwrap(), (v, bytes.len()));
    }
}

#[test]
fn packets() {
    assert_eq!(status_request_packet(), vec![1, 0]);
    let packet = handshake_packet("localhost", 25565).unwrap();
    let mut expected = vec![15, 0, 0, 9];
    expected.extend_from_slice(b"localhost");
    expected.extend_from_slice(&[0x63, 0xdd, 1]);
    assert_eq!(packet, expected);
    assert_eq!(check_packet_id(0), Ok(()));
    assert_eq!(check_packet_id(2), Err(ResponseError::UnexpectedPacketId(2)));
    let _ = PacketError::HostTooLong;
}

#[test]
fn status_response_framing() {
    assert_eq!(status_frame(&[]), FrameStep::NeedMore);
    assert_eq!(status_frame(&[5, 0, 2, b'{', b'}']), FrameStep::Body { start: 3, len: 2 });
    assert_eq!(status_frame(&[5, 0, 2, b'{']), FrameStep::NeedMore);
    assert_eq!(status_frame(&[5, 0]), FrameStep::NeedMore);
    assert_eq!(status_frame(&[5, 1]), FrameStep::Failed(ResponseError::UnexpectedPacketId(1)));
    assert_eq!(
        status_frame(&[5, 0, 0xff, 0xff, 0xff, 0xff, 0x0f]),
        FrameStep::Failed(ResponseError::NegativeDataLength(-1))
    );
    assert_eq!(status_frame(&[0x80, 0x80, 0x80, 0x80, 0x80]), FrameStep::Failed(ResponseError::VarIntTooBig));
    assert_eq!(status_frame(&[0x81, 0x01, 0, 1, b'x', 9]), FrameStep::Body { start: 4, len: 1 });
    assert_eq!(data_size(3), Ok(3));
    assert_eq!(data_size(-2), Err(ResponseError::NegativeDataLength(-2)));
}
