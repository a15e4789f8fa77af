use switchblade::ingest::{
    entry_order, extension_of, fake_mp4_bytes, has_video_ext, is_dataless, is_hidden, is_video,
    plausible_video, route_entry, route_listed, route_path, route_sniffed, stub_name,
    stub_original, take_paths, trim_line, EntryKind, Route, Stat,
};

fn ext(path: &str) -> Option<Vec<char>> {
    extension_of(path)
}

#[test]
fn dir_reader_lists_only_siblings() {
    let listing = [
        ("a.mp4", EntryKind::File),
        ("b.mov", EntryKind::File),
        ("note.txt", EntryKind::File),
        ("sub", EntryKind::Dir),
    ];
    let bytes = fake_mp4_bytes();
    let mut names: Vec<&str> = vec![];
    for (name, kind) in listing {
        let hidden = is_hidden(&name.as_bytes().to_vec());
        if let Route::Sniff { .. } = route_entry(hidden, kind, is_video(name), 0, 0) {
            let route = match route_listed(Some(bytes.len() as u64), false, true) {
                Route::Sniff { len } => route_sniffed(ext(name).as_ref(), len, Some(&bytes)),
                other => other,
            };
            if let Route::Admit { readable: true } = route {
                names.push(name);
            }
        }
    }
    names.sort();
    assert_eq!(names, ["a.mp4", "b.mov"]);
}

#[test]
fn missing_paths_never_reach_the_grid() {
    let bytes = fake_mp4_bytes();
    let there = Stat { is_dir: false, len: bytes.len() as u64 };
    assert_eq!(route_path(None, is_video("ghost.mp4"), false, false, true), Route::Reject);
    match route_path(Some(there), is_video("real.mp4"), false, false, true) {
        Route::Sniff { len } => assert_eq!(
            route_sniffed(ext("real.mp4").as_ref(), len, Some(&bytes)),
            Route::Admit { readable: true }
        ),
        other => panic!("unexpected route {other:?}"),
    }
}

#[test]
fn garbage_behind_a_video_extension_never_reaches_the_grid() {
    let files: [(&str, Vec<u8>); 4] = [
        ("good.mp4", fake_mp4_bytes()),
        ("html.mp4", b"<!DOCTYPE html><html>".to_vec()),
        ("empty.mp4", b"".to_vec()),
        ("text.mkv", b"just some notes\n".to_vec()),
    ];
    let mut got: Vec<&str> = vec![];
    for (name, bytes) in &files {
        let stat = Stat { is_dir: false, len: bytes.len() as u64 };
        let route = match route_path(Some(stat), is_video(name), false, false, true) {
            Route::Sniff { len } => route_sniffed(ext(name).as_ref(), len, Some(bytes)),
            other => other,
        };
        if let Route::Admit { .. } = route {
            got.push(name);
        }
    }
    assert_eq!(got, ["good.mp4"], "only the plausibly-headed file passes the gatekeeper");
}

#[test]
fn extensions_decide_what_is_video() {
    let html = b"<!DOCTYPE html><html>".to_vec();
    assert!(!plausible_video(ext("a.mp4").as_ref(), html.len() as u64, Some(&html)));
    assert!(is_video("/x/a.MP4"));
    assert!(is_video("b.mov"));
    assert!(!is_video("note.txt"));
    assert!(!is_video("mp4"));
    assert!(has_video_ext(&vec!['m', 'k', 'v']));
    assert!(!has_video_ext(&vec!['t', 'x', 't']));
}

#[test]
fn paths_come_in_pieces() {
    let mut pending: Vec<u8> = vec![];
    let first = take_paths(&mut pending, &b"/a.mp4\n/b".to_vec());
    assert_eq!(first, vec![b"/a.mp4".to_vec()]);
    assert_eq!(pending, b"/b".to_vec());
    let second = take_paths(&mut pending, &b".mov\0/c.mkv\n".to_vec());
    assert_eq!(second, vec![b"/b.mov".to_vec(), b"/c.mkv".to_vec()]);
    assert!(pending.is_empty());
}

#[test]
fn lines_are_trimmed_and_empty_ones_dropped() {
    assert_eq!(trim_line(&b"/a.mp4\r".to_vec()), Some(b"/a.mp4".to_vec()));
    assert_eq!(trim_line(&b"".to_vec()), None);
}

#[test]
fn hidden_entries_and_cloud_stubs_are_told_apart() {
    assert!(is_hidden(&b".git".to_vec()));
    assert!(!is_hidden(&b"a.mp4".to_vec()));
    let stub = stub_name(&b"a.mp4".to_vec());
    assert_eq!(stub, b".a.mp4.icloud".to_vec());
    assert_eq!(stub_original(&stub), Some(b"a.mp4".to_vec()));
    assert_eq!(stub_original(&b"a.mp4".to_vec()), None);
    assert!(is_dataless(0x4000_0000));
    assert!(!is_dataless(0));
}

#[test]
fn a_walk_goes_no_deeper_than_it_may() {
    assert_eq!(route_entry(true, EntryKind::File, true, 0, 4), Route::Skip);
    assert_eq!(route_entry(false, EntryKind::Dir, false, 4, 4), Route::Skip);
    assert_eq!(route_entry(false, EntryKind::Dir, false, 3, 4), Route::Walk);
    assert_eq!(route_entry(false, EntryKind::Other, true, 0, 4), Route::Skip);
}

#[test]
fn a_clip_in_the_cloud_is_admitted_unread() {
    assert_eq!(route_path(None, true, true, false, true), Route::Admit { readable: false });
    let there = Stat { is_dir: false, len: 9 };
    assert_eq!(route_path(Some(there), true, true, false, true), Route::Admit { readable: true });
    let dir = Stat { is_dir: true, len: 0 };
    assert_eq!(route_path(Some(dir), false, false, true, true), Route::Walk);
    assert_eq!(route_path(Some(dir), false, false, false, true), Route::Skip);
    assert_eq!(route_path(Some(there), false, false, false, true), Route::Skip);
    assert_eq!(route_listed(None, false, true), Route::Admit { readable: false });
}

#[test]
fn entries_are_taken_by_name() {
    let names: Vec<Vec<u8>> =
        ["b.mp4", "a.mp4", "a", "B.mp4", "", "a.mp4", "a.mp40", "\u{e9}"].iter().map(|n| n.as_bytes().to_vec()).collect();
    assert_eq!(entry_order(&names), vec![4, 3, 2, 1, 5, 6, 0, 7]);
    assert!(entry_order(&vec![]).is_empty());
    let many: Vec<Vec<u8>> = (0..1_000u32).map(|k| (k * 7 % 1_000).to_be_bytes().to_vec()).collect();
    let order = entry_order(&many);
    for (at, i) in order.iter().enumerate() {
        assert_eq!(many[*i], (at as u32).to_be_bytes().to_vec());
    }
}
