use rustubs::fs::ustar::{iter, oct2bin, to_cstr, FileHdr, FileType, UstarFile};
use rustubs::kthread::kshell::{event_loop, handle, split_word, Command, Kshell, Typed};
use rustubs::kthread::{Echo, Idle, KThread, Lazy, Meeseeks};
use rustubs::mm::vmm::{VMArea, VMMan, VMPerms, VMType};
use rustubs::proc::exec::{bytes_eq, exec, find_file};
use rustubs::proc::sync::{Level2, ENTER_L2, IS_L2_AVAILABLE};

fn entry(name: &str, content: &[u8]) -> Vec<u8> {
    let mut h = vec![0u8; 512];
    h[..name.len()].copy_from_slice(name.as_bytes());
    let size = format!("{:011o}", content.len());
    h[124..135].copy_from_slice(size.as_bytes());
    h[156] = b'0';
    h[257..262].copy_from_slice(b"ustar");
    h[265..269].copy_from_slice(b"root");
    h[297..302].copy_from_slice(b"wheel");
    let mut out = h;
    out.extend_from_slice(content);
    while out.len() % 512 != 0 {
        out.push(0);
    }
    out
}

fn archive() -> Vec<u8> {
    let mut a = entry("hello.txt", b"hello, world\n");
    a.extend(entry("big", &vec![7u8; 600]));
    a.extend(entry("empty", b""));
    a.extend(vec![0u8; 1024]);
    a
}

#[test]
fn archive_is_walked_file_by_file() {
    let a = archive();
    let mut it = iter(&a);
    let f = it.next().unwrap();
    assert_eq!(f.hdr.name(), "hello.txt");
    assert_eq!(f.hdr.size(), 13);
    assert_eq!(f.file, b"hello, world\n");
    assert_eq!(it.iter_curr, 1024);
    let f = it.next().unwrap();
    assert_eq!(f.hdr.name(), "big");
    assert_eq!(f.file.len(), 600);
    assert_eq!(it.iter_curr, 1024 + 512 + 1024);
    let f = it.next().unwrap();
    assert_eq!(f.hdr.name(), "empty");
    assert_eq!(f.file.len(), 0);
    assert!(it.next().is_none());
    let at = it.iter_curr;
    assert!(it.next().is_none());
    assert_eq!(it.iter_curr, at);
    let all = iter(&a).collect();
    assert_eq!(all.len(), 3);
    assert_eq!(all[1].hdr.name(), "big");
    assert!(iter(&a[..100]).next().is_none());
    assert!(iter(&[]).next().is_none());
}

#[test]
fn header_fields_are_read_from_their_places() {
    let a = archive();
    let h = FileHdr::from_slice(&a).unwrap();
    assert!(h.is_ustar());
    assert_eq!(h.owner(), "root\0");
    assert_eq!(h.owner_group(), "wheel\0");
    assert_eq!(h.size(), 13);
    assert!(FileHdr::from_slice(&a[..511]).is_none());
    let zeros = vec![0u8; 512];
    assert!(!FileHdr::from_slice(&zeros).unwrap().is_ustar());
    assert_eq!(oct2bin(b"00000001750"), 1000);
    assert_eq!(oct2bin(b"37777777777"), u32::MAX);
    assert_eq!(oct2bin(b""), 0);
    assert_eq!(oct2bin(b"19"), 17);
    assert_eq!(to_cstr(b"ab\0cd\0"), Some(&b"ab\0"[..]));
    assert_eq!(to_cstr(b"\0ab\0"), None);
}

#[test]
fn type_flags_name_the_kind() {
    assert_eq!(FileType::from_u8(b'0'), FileType::NORMAL);
    assert_eq!(FileType::from_u8(0), FileType::NORMAL);
    assert_eq!(FileType::from_u8(b'1'), FileType::HLINK);
    assert_eq!(FileType::from_u8(b'2'), FileType::SYMLINK);
    assert_eq!(FileType::from_u8(b'3'), FileType::CHAR_DEV);
    assert_eq!(FileType::from_u8(b'4'), FileType::RESERVED(b'4'));
    assert_eq!(FileType::from_u8(b'5'), FileType::DIR);
    assert_eq!(FileType::from_u8(b'6'), FileType::FIFO);
    assert_eq!(FileType::from_u8(b'7'), FileType::CONT);
    assert_eq!(FileType::from_u8(b'g'), FileType::EXTHDR_META);
    assert_eq!(FileType::from_u8(b'x'), FileType::EXTHDR_METANXT);
    assert_eq!(FileType::from_u8(b'A'), FileType::RESERVED(b'A'));
}

#[test]
fn shell_gathers_a_line() {
    let mut line = Vec::new();
    assert_eq!(event_loop(&mut line, 0x8), Typed::Erased(false));
    assert_eq!(event_loop(&mut line, b'l'), Typed::Echoed(b'l'));
    assert_eq!(event_loop(&mut line, b'x'), Typed::Echoed(b'x'));
    assert_eq!(event_loop(&mut line, 0x8), Typed::Erased(true));
    assert_eq!(event_loop(&mut line, b's'), Typed::Echoed(b's'));
    assert_eq!(line, b"ls");
    assert_eq!(event_loop(&mut line, 0xa), Typed::Submitted(b"ls".to_vec()));
    assert!(line.is_empty());
    assert_eq!(event_loop(&mut line, 0xa), Typed::Submitted(Vec::new()));
}

#[test]
fn shell_tells_commands_apart() {
    let a = archive();
    let files: Vec<UstarFile> = iter(&a).collect();
    assert_eq!(handle("ls", &files), Command::List);
    assert_eq!(handle("ls -l", &files), Command::List);
    assert_eq!(handle("", &files), Command::Nothing);
    assert_eq!(handle(" ls", &files), Command::Nothing);
    assert_eq!(handle("clear", &files), Command::Clear);
    assert_eq!(handle("mem", &files), Command::Mem);
    assert_eq!(handle("cat", &files), Command::NeedFileName);
    assert_eq!(handle("cat big", &files), Command::Show(1));
    assert_eq!(handle("cat hello.txt more", &files), Command::Show(0));
    assert_eq!(handle("cat nope", &files), Command::NoSuchFile(b"nope"));
    assert_eq!(handle("cat ", &files), Command::NoSuchFile(b""));
    assert_eq!(handle("cat  big", &files), Command::NoSuchFile(b""));
    assert_eq!(handle("hello", &files), Command::Exec(b"hello"));
    assert_eq!(handle("lsx y", &files), Command::Exec(b"lsx"));
    assert_eq!(split_word(b"a b c"), (&b"a"[..], Some(&b"b c"[..])));
    assert_eq!(split_word(b"abc"), (&b"abc"[..], None));
    assert_eq!(split_word(b"abc "), (&b"abc"[..], Some(&b""[..])));
}

fn area(start: u64) -> VMArea {
    VMArea {
        vm_range: start..start + 0x1000,
        tag: String::from("T"),
        user_perms: VMPerms::all(),
        backing: VMType::ANOM,
    }
}

#[test]
fn exec_wipes_user_areas_and_finds_the_file() {
    let a = archive();
    let files: Vec<UstarFile> = iter(&a).collect();
    let mut mm = VMMan::new();
    for start in [0xffff_8000_0000_0000, 0x40_0000, 0xffff_8020_0000_0000, 0x7000_0000_0000] {
        mm.vmas.push(area(start));
    }
    assert_eq!(exec(&mut mm, &files, "big"), Some(1));
    let left: Vec<u64> = mm.vmas.iter().map(|v| v.vm_range.start).collect();
    assert_eq!(left, vec![0xffff_8000_0000_0000, 0xffff_8020_0000_0000]);
    assert_eq!(exec(&mut mm, &files, "bigger"), None);
    assert_eq!(mm.vmas.len(), 2);
    assert_eq!(find_file(&files, "empty"), Some(2));
    assert_eq!(find_file(&[], "empty"), None);
    assert!(bytes_eq(b"ab", b"ab"));
    assert!(!bytes_eq(b"ab", b"abc"));
    assert!(!bytes_eq(b"ab", b"ac"));
}

#[test]
fn threads_leave_the_epilogue_level_first() {
    let mut l2 = Level2::new();
    ENTER_L2(&mut l2);
    assert_eq!(Idle::_entry(&mut l2), Idle::get_entry());
    assert!(IS_L2_AVAILABLE(&l2));
    let entries = [
        Idle::get_entry(),
        Meeseeks::get_entry(),
        Kshell::get_entry(),
        Lazy::get_entry(),
        Echo::get_entry(),
    ];
    for (i, a) in entries.iter().enumerate() {
        for b in &entries[i + 1..] {
            assert_ne!(a, b);
        }
    }
    assert_eq!(Lazy::NAP, 1_000_000_000);
    assert_eq!(Meeseeks::NAP, 2_000_000_000);
}
