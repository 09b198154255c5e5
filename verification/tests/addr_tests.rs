use mane::addr::RemoteAddr;
use mane::path::FsPath;
use mane::rsync::{rsync_arguments, RSYNC_PROGRAM};

fn v6(segs: [u16; 8], port: u16, scope_id: u32) -> RemoteAddr {
    let mut ip: u128 = 0;
    for s in segs {
        ip = (ip << 16) | s as u128;
    }
    RemoteAddr::V6 { ip6: ip, port, flowinfo: 0, scope_id }
}

#[test]
fn ipv4_is_dotted_with_port() {
    let a = RemoteAddr::V4 { ip4: 0xc0a8_0102, port: 22 };
    assert_eq!(a.to_text(), "192.168.1.2:22");
    assert_eq!(RemoteAddr::V4 { ip4: 0, port: 0 }.to_text(), "0.0.0.0:0");
    assert_eq!(RemoteAddr::V4 { ip4: u32::MAX, port: 65535 }.to_text(), "255.255.255.255:65535");
}

#[test]
fn ipv6_longest_zero_run_is_compressed() {
    assert_eq!(v6([0x2001, 0xdb8, 0, 0, 0, 0, 0, 1], 2222, 0).to_text(), "[2001:db8::1]:2222");
    assert_eq!(v6([0, 0, 0, 0, 0, 0, 0, 1], 22, 0).to_text(), "[::1]:22");
    assert_eq!(v6([0; 8], 22, 0).to_text(), "[::]:22");
    assert_eq!(v6([1, 0, 0, 2, 0, 0, 0, 3], 22, 0).to_text(), "[1:0:0:2::3]:22");
}

#[test]
fn ipv6_first_of_equal_runs_is_compressed() {
    assert_eq!(v6([1, 0, 0, 2, 0, 0, 3, 4], 22, 0).to_text(), "[1::2:0:0:3:4]:22");
}

#[test]
fn ipv6_single_zero_is_not_compressed() {
    assert_eq!(v6([1, 0, 2, 3, 4, 5, 6, 0xabcd], 22, 0).to_text(), "[1:0:2:3:4:5:6:abcd]:22");
}

#[test]
fn ipv4_mapped_ipv6_is_written_dotted() {
    assert_eq!(v6([0, 0, 0, 0, 0, 0xffff, 0x0a00, 0x0001], 80, 0).to_text(), "[::ffff:10.0.0.1]:80");
}

#[test]
fn ipv6_scope_id_follows_percent() {
    assert_eq!(v6([0xfe80, 0, 0, 0, 0, 0, 0, 1], 22, 3).to_text(), "[fe80::1%3]:22");
}

#[test]
fn addresses_compare_all_fields() {
    let a = v6([0xfe80, 0, 0, 0, 0, 0, 0, 1], 22, 3);
    let b = v6([0xfe80, 0, 0, 0, 0, 0, 0, 1], 22, 4);
    assert!(!a.same_as(&b));
    assert!(a.same_as(&a));
    assert!(!RemoteAddr::V4 { ip4: 1, port: 22 }.same_as(&RemoteAddr::V4 { ip4: 1, port: 23 }));
    assert_eq!(a.port(), 22);
}

#[test]
fn rsync_on_default_port_names_no_shell() {
    let args = rsync_arguments(
        &FsPath::from_text("/home/u/src/"),
        &FsPath::from_text("/backup/src"),
        "u",
        &RemoteAddr::V4 { ip4: 0x0a00_0001, port: 22 },
    );
    assert_eq!(args, vec!["-avz", "--delete", "/home/u/src/", "u@10.0.0.1:22:/backup/src"]);
    assert_eq!(RSYNC_PROGRAM, "rsync");
}

#[test]
fn rsync_on_other_port_names_the_shell_port() {
    let args = rsync_arguments(
        &FsPath::from_text("src"),
        &FsPath::from_text("dst"),
        "me",
        &v6([0, 0, 0, 0, 0, 0, 0, 1], 2222, 0),
    );
    assert_eq!(args, vec!["-avz", "--delete", "-e \"ssh -p 2222\"", "src", "me@[::1]:2222:dst"]);
}
