//! Which files become clips.

use vstd::prelude::*;

use crate::commands::file_name_of;
use crate::text::chars_of;

verus! {

/// How deep directories are walked.
pub const WALK_DEPTH: usize = 24;

/// The flag of a file whose data is not here.
pub const SF_DATALESS: u32 = 0x4000_0000;

/// The extensions of video files.
pub open spec fn video_exts() -> Seq<Seq<char>> {
    seq![
        "mp4"@,
        "m4v"@,
        "mov"@,
        "qt"@,
        "webm"@,
        "mkv"@,
        "avi"@,
        "wmv"@,
        "flv"@,
        "f4v"@,
        "mpg"@,
        "mpeg"@,
        "m2v"@,
        "ts"@,
        "m2ts"@,
        "mts"@,
        "3gp"@,
        "3g2"@,
        "ogv"@,
        "vob"@,
        "mxf"@,
        "y4m"@,
        "gif"@,
    ]
}

/// A letter of the alphabet without its case.
pub open spec fn lower(c: char) -> char {
    if 'A' <= c && c <= 'Z' {
        ((c as u32) + 32) as char
    } else {
        c
    }
}

fn to_lower(c: char) -> (r: char)
    ensures
        r == lower(c),
{
    match c {
        'A' => 'a',
        'B' => 'b',
        'C' => 'c',
        'D' => 'd',
        'E' => 'e',
        'F' => 'f',
        'G' => 'g',
        'H' => 'h',
        'I' => 'i',
        'J' => 'j',
        'K' => 'k',
        'L' => 'l',
        'M' => 'm',
        'N' => 'n',
        'O' => 'o',
        'P' => 'p',
        'Q' => 'q',
        'R' => 'r',
        'S' => 's',
        'T' => 't',
        'U' => 'u',
        'V' => 'v',
        'W' => 'w',
        'X' => 'x',
        'Y' => 'y',
        'Z' => 'z',
        _ => c,
    }
}

/// A text without the case of its letters.
pub open spec fn lowered(s: Seq<char>) -> Seq<char> {
    s.map_values(|c: char| lower(c))
}

/// Where the last dot is among the first `n` characters.
pub open spec fn last_dot(s: Seq<char>, n: int) -> Option<int>
    decreases n,
{
    if n <= 0 {
        None
    } else if s[n - 1] == '.' {
        Some(n - 1)
    } else {
        last_dot(s, n - 1)
    }
}

/// The extension of a file name: what follows its last dot, unless that is its
/// first character.
pub open spec fn extension(name: Seq<char>) -> Option<Seq<char>> {
    match last_dot(name, name.len() as int) {
        Some(i) => if i == 0 {
            None
        } else {
            Some(name.subrange(i + 1, name.len() as int))
        },
        None => None,
    }
}

/// The extension of the file at a path, without the case of its letters.
pub open spec fn path_extension(path: Seq<char>) -> Option<Seq<char>> {
    match crate::commands::file_name_text(path) {
        Some(n) => match extension(n) {
            Some(e) => Some(lowered(e)),
            None => None,
        },
        None => None,
    }
}

/// The extension is that of a video file.
pub open spec fn is_video_ext(e: Option<Seq<char>>) -> bool {
    e matches Some(e) && video_exts().contains(e)
}

/// The extension of a file name, without the case of its letters.
pub fn extension_of(name: &str) -> (r: Option<Vec<char>>)
    ensures
        match r {
            Some(v) => extension(name@) matches Some(e) && v@ == lowered(e),
            None => extension(name@) is None,
        },
{
    let s = chars_of(name);
    let mut n: usize = s.len();
    while n > 0
        invariant
            n <= s@.len(),
            s@ == name@,
            last_dot(s@, n as int) == last_dot(s@, s@.len() as int),
        decreases n,
    {
        if s[n - 1] == '.' {
            if n == 1 {
                return None;
            }
            let mut v: Vec<char> = Vec::new();
            let mut i: usize = n;
            while i < s.len()
                invariant
                    1 < n <= i <= s@.len(),
                    v@.len() == i - n,
                    forall|k: int| 0 <= k < v@.len() ==> (#[trigger] v@[k]) == lower(s@[n + k]),
                decreases s@.len() - i,
            {
                v.push(to_lower(s[i]));
                i += 1;
            }
            assert(v@ =~= lowered(s@.subrange(n as int, s@.len() as int)));
            return Some(v);
        }
        n -= 1;
    }
    None
}

fn is_text(v: &Vec<char>, t: &str) -> (r: bool)
    ensures
        r == (v@ == t@),
{
    let w = chars_of(t);
    if v.len() != w.len() {
        assert(v@.len() != t@.len());
        return false;
    }
    let mut i: usize = 0;
    while i < v.len()
        invariant
            i <= v@.len(),
            v@.len() == w@.len(),
            w@ == t@,
            forall|k: int| 0 <= k < i ==> (#[trigger] v@[k]) == w@[k],
        decreases v@.len() - i,
    {
        if v[i] != w[i] {
            assert(v@[i as int] != t@[i as int]);
            return false;
        }
        i += 1;
    }
    assert(v@ =~= t@);
    true
}

/// Whether the extension, in lower case, is that of a video file.
pub fn has_video_ext(e: &Vec<char>) -> (r: bool)
    ensures
        r == is_video_ext(Some(e@)),
{
    proof {
        let x = video_exts();
        assert(x[0] == "mp4"@ && x[1] == "m4v"@ && x[2] == "mov"@ && x[3] == "qt"@);
        assert(x[4] == "webm"@ && x[5] == "mkv"@ && x[6] == "avi"@ && x[7] == "wmv"@);
        assert(x[8] == "flv"@ && x[9] == "f4v"@ && x[10] == "mpg"@ && x[11] == "mpeg"@);
        assert(x[12] == "m2v"@ && x[13] == "ts"@ && x[14] == "m2ts"@ && x[15] == "mts"@);
        assert(x[16] == "3gp"@ && x[17] == "3g2"@ && x[18] == "ogv"@ && x[19] == "vob"@);
        assert(x[20] == "mxf"@ && x[21] == "y4m"@ && x[22] == "gif"@);
        assert(x.len() == 23);
    }
    is_text(e, "mp4") || is_text(e, "m4v") || is_text(e, "mov") || is_text(e, "qt") || is_text(
        e,
        "webm",
    ) || is_text(e, "mkv") || is_text(e, "avi") || is_text(e, "wmv") || is_text(e, "flv")
        || is_text(e, "f4v") || is_text(e, "mpg") || is_text(e, "mpeg") || is_text(e, "m2v")
        || is_text(e, "ts") || is_text(e, "m2ts") || is_text(e, "mts") || is_text(e, "3gp")
        || is_text(e, "3g2") || is_text(e, "ogv") || is_text(e, "vob") || is_text(e, "mxf")
        || is_text(e, "y4m") || is_text(e, "gif")
}

/// Whether the path is that of a video file, by its extension.
pub fn is_video(path: &str) -> (r: bool)
    ensures
        r == is_video_ext(path_extension(path@)),
{
    match file_name_of(path) {
        Some(name) => match extension_of(name.as_str()) {
            Some(e) => has_video_ext(&e),
            None => false,
        },
        None => false,
    }
}

/// The bytes `sig` stand at `at` in the head of a file.
pub open spec fn stands_at(head: Seq<u8>, sig: Seq<u8>, at: int) -> bool {
    head.len() >= at + sig.len() && head.subrange(at, at + sig.len()) == sig
}

/// The boxes that an ISO media file or a QuickTime file starts with.
pub open spec fn boxes() -> Seq<Seq<u8>> {
    seq![
        seq![0x66u8, 0x74, 0x79, 0x70],
        seq![0x6du8, 0x6f, 0x6f, 0x76],
        seq![0x6du8, 0x64, 0x61, 0x74],
        seq![0x66u8, 0x72, 0x65, 0x65],
        seq![0x73u8, 0x6b, 0x69, 0x70],
        seq![0x77u8, 0x69, 0x64, 0x65],
        seq![0x70u8, 0x6e, 0x6f, 0x74],
        seq![0x75u8, 0x75, 0x69, 0x64],
    ]
}

/// The extensions of the ISO media family.
pub open spec fn is_iso_ext(e: Seq<char>) -> bool {
    e == "mp4"@ || e == "m4v"@ || e == "mov"@ || e == "qt"@ || e == "3gp"@ || e == "3g2"@ || e
        == "f4v"@
}

/// The head of a file is one that a file with the extension may have. Where the
/// container gives no sure sign, every head is.
pub open spec fn head_fits(e: Seq<char>, head: Seq<u8>) -> bool {
    if is_iso_ext(e) {
        exists|k: int| 0 <= k < 8 && stands_at(head, #[trigger] boxes()[k], 4)
    } else if e == "mkv"@ || e == "webm"@ {
        stands_at(head, seq![0x1au8, 0x45, 0xdf, 0xa3], 0)
    } else if e == "avi"@ {
        stands_at(head, seq![0x52u8, 0x49, 0x46, 0x46], 0) && stands_at(
            head,
            seq![0x41u8, 0x56, 0x49, 0x20],
            8,
        )
    } else if e == "wmv"@ {
        stands_at(head, seq![0x30u8, 0x26, 0xb2, 0x75], 0)
    } else if e == "flv"@ {
        stands_at(head, seq![0x46u8, 0x4c, 0x56], 0)
    } else if e == "mpg"@ || e == "mpeg"@ || e == "m2v"@ || e == "vob"@ {
        stands_at(head, seq![0x00u8, 0x00, 0x01], 0)
    } else if e == "ts"@ || e == "m2ts"@ || e == "mts"@ {
        stands_at(head, seq![0x47u8], 0) || stands_at(head, seq![0x47u8], 4)
    } else if e == "ogv"@ {
        stands_at(head, seq![0x4fu8, 0x67, 0x67, 0x53], 0)
    } else if e == "gif"@ {
        stands_at(head, seq![0x47u8, 0x49, 0x46, 0x38], 0)
    } else if e == "y4m"@ {
        stands_at(head, seq![0x59u8, 0x55, 0x56, 0x34, 0x4d, 0x50, 0x45, 0x47, 0x32], 0)
    } else if e == "mxf"@ {
        stands_at(head, seq![0x06u8, 0x0e, 0x2b, 0x34], 0)
    } else {
        true
    }
}

/// A file of a length may be the video that its extension says, given its head
/// where that could be read.
pub open spec fn plausible(e: Option<Seq<char>>, len: u64, head: Option<Seq<u8>>) -> bool {
    len > 0 && match (e, head) {
        (Some(e), Some(h)) => head_fits(e, h),
        _ => true,
    }
}

/// The head of a file, if it was read, as bytes.
pub open spec fn head_bytes(head: Option<&Vec<u8>>) -> Option<Seq<u8>> {
    match head {
        Some(h) => Some(h@),
        None => None,
    }
}

/// An extension that may be there, as characters.
pub open spec fn ext_chars(e: Option<&Vec<char>>) -> Option<Seq<char>> {
    match e {
        Some(v) => Some(v@),
        None => None,
    }
}

fn has(head: &Vec<u8>, sig: &Vec<u8>, at: usize) -> (r: bool)
    requires
        at <= 16,
        sig@.len() <= 16,
    ensures
        r == stands_at(head@, sig@, at as int),
{
    if head.len() < at + sig.len() {
        return false;
    }
    let mut i: usize = 0;
    while i < sig.len()
        invariant
            i <= sig@.len(),
            at <= 16,
            sig@.len() <= 16,
            at + sig@.len() <= head@.len(),
            forall|k: int| 0 <= k < i ==> head@[at + k] == (#[trigger] sig@[k]),
        decreases sig@.len() - i,
    {
        if head[at + i] != sig[i] {
            assert(head@.subrange(at as int, at + sig@.len())[i as int] != sig@[i as int]);
            return false;
        }
        i += 1;
    }
    assert(head@.subrange(at as int, at + sig@.len()) =~= sig@);
    true
}

fn has_box(head: &Vec<u8>) -> (r: bool)
    ensures
        r == exists|k: int| 0 <= k < 8 && stands_at(head@, #[trigger] boxes()[k], 4),
{
    let sigs: Vec<Vec<u8>> = vec![
        vec![0x66, 0x74, 0x79, 0x70],
        vec![0x6d, 0x6f, 0x6f, 0x76],
        vec![0x6d, 0x64, 0x61, 0x74],
        vec![0x66, 0x72, 0x65, 0x65],
        vec![0x73, 0x6b, 0x69, 0x70],
        vec![0x77, 0x69, 0x64, 0x65],
        vec![0x70, 0x6e, 0x6f, 0x74],
        vec![0x75, 0x75, 0x69, 0x64],
    ];
    proof {
        let b = boxes();
        assert(sigs@[0]@ =~= b[0] && sigs@[1]@ =~= b[1] && sigs@[2]@ =~= b[2] && sigs@[3]@ =~= b[3]);
        assert(sigs@[4]@ =~= b[4] && sigs@[5]@ =~= b[5] && sigs@[6]@ =~= b[6] && sigs@[7]@ =~= b[7]);
        assert(forall|k: int| 0 <= k < 8 ==> (#[trigger] sigs@[k])@ == b[k]);
    }
    let mut k: usize = 0;
    while k < 8
        invariant
            k <= 8,
            sigs@.len() == 8,
            forall|k: int|
                0 <= k < 8 ==> (#[trigger] sigs@[k])@ == boxes()[k] && sigs@[k]@.len() == 4,
            forall|j: int| 0 <= j < k ==> !stands_at(head@, #[trigger] boxes()[j], 4),
        decreases 8 - k,
    {
        assert(sigs@[k as int]@.len() == 4);
        if has(head, &sigs[k], 4) {
            assert(stands_at(head@, boxes()[k as int], 4));
            return true;
        }
        k += 1;
    }
    false
}

fn fits(e: &Vec<char>, head: &Vec<u8>) -> (r: bool)
    ensures
        r == head_fits(e@, head@),
{
    if is_text(e, "mp4") || is_text(e, "m4v") || is_text(e, "mov") || is_text(e, "qt") || is_text(
        e,
        "3gp",
    ) || is_text(e, "3g2") || is_text(e, "f4v") {
        return has_box(head);
    }
    if is_text(e, "mkv") || is_text(e, "webm") {
        let sig: Vec<u8> = vec![0x1a, 0x45, 0xdf, 0xa3];
        assert(sig@ =~= seq![0x1au8, 0x45, 0xdf, 0xa3]);
        return has(head, &sig, 0);
    }
    if is_text(e, "avi") {
        let riff: Vec<u8> = vec![0x52, 0x49, 0x46, 0x46];
        let avi: Vec<u8> = vec![0x41, 0x56, 0x49, 0x20];
        assert(riff@ =~= seq![0x52u8, 0x49, 0x46, 0x46]);
        assert(avi@ =~= seq![0x41u8, 0x56, 0x49, 0x20]);
        return has(head, &riff, 0) && has(head, &avi, 8);
    }
    if is_text(e, "wmv") {
        let sig: Vec<u8> = vec![0x30, 0x26, 0xb2, 0x75];
        assert(sig@ =~= seq![0x30u8, 0x26, 0xb2, 0x75]);
        return has(head, &sig, 0);
    }
    if is_text(e, "flv") {
        let sig: Vec<u8> = vec![0x46, 0x4c, 0x56];
        assert(sig@ =~= seq![0x46u8, 0x4c, 0x56]);
        return has(head, &sig, 0);
    }
    fits_rest(e, head)
}

fn fits_rest(e: &Vec<char>, head: &Vec<u8>) -> (r: bool)
    requires
        !is_iso_ext(e@),
        e@ != "mkv"@,
        e@ != "webm"@,
        e@ != "avi"@,
        e@ != "wmv"@,
        e@ != "flv"@,
    ensures
        r == head_fits(e@, head@),
{
    if is_text(e, "mpg") || is_text(e, "mpeg") || is_text(e, "m2v") || is_text(e, "vob") {
        let sig: Vec<u8> = vec![0x00, 0x00, 0x01];
        assert(sig@ =~= seq![0x00u8, 0x00, 0x01]);
        return has(head, &sig, 0);
    }
    if is_text(e, "ts") || is_text(e, "m2ts") || is_text(e, "mts") {
        let sig: Vec<u8> = vec![0x47];
        assert(sig@ =~= seq![0x47u8]);
        return has(head, &sig, 0) || has(head, &sig, 4);
    }
    if is_text(e, "ogv") {
        let sig: Vec<u8> = vec![0x4f, 0x67, 0x67, 0x53];
        assert(sig@ =~= seq![0x4fu8, 0x67, 0x67, 0x53]);
        return has(head, &sig, 0);
    }
    if is_text(e, "gif") {
        let sig: Vec<u8> = vec![0x47, 0x49, 0x46, 0x38];
        assert(sig@ =~= seq![0x47u8, 0x49, 0x46, 0x38]);
        return has(head, &sig, 0);
    }
    if is_text(e, "y4m") {
        let sig: Vec<u8> = vec![0x59, 0x55, 0x56, 0x34, 0x4d, 0x50, 0x45, 0x47, 0x32];
        assert(sig@ =~= seq![0x59u8, 0x55, 0x56, 0x34, 0x4d, 0x50, 0x45, 0x47, 0x32]);
        return has(head, &sig, 0);
    }
    if is_text(e, "mxf") {
        let sig: Vec<u8> = vec![0x06, 0x0e, 0x2b, 0x34];
        assert(sig@ =~= seq![0x06u8, 0x0e, 0x2b, 0x34]);
        return has(head, &sig, 0);
    }
    true
}

/// Whether a file of a length may be the video that its extension, in lower
/// case, says. `head` has its first bytes, where they could be read.
pub fn plausible_video(e: Option<&Vec<char>>, len: u64, head: Option<&Vec<u8>>) -> (r: bool)
    ensures
        r == plausible(ext_chars(e), len, head_bytes(head)),
{
    if len == 0 {
        return false;
    }
    match (e, head) {
        (Some(e), Some(h)) => fits(e, h),
        _ => true,
    }
}

/// The smallest head of an ISO media file that is let in.
pub fn fake_mp4_bytes() -> (v: Vec<u8>)
    ensures
        v@ == seq![
            0x00u8,
            0x00,
            0x00,
            0x18,
            0x66,
            0x74,
            0x79,
            0x70,
            0x69,
            0x73,
            0x6f,
            0x6d,
            0x00,
            0x00,
            0x02,
            0x00,
            0x69,
            0x73,
            0x6f,
            0x6d,
            0x69,
            0x73,
            0x6f,
            0x32,
        ],
        plausible(Some("mp4"@), 24, Some(v@)),
{
    let v: Vec<u8> = vec![
        0x00, 0x00, 0x00, 0x18, 0x66, 0x74, 0x79, 0x70, 0x69, 0x73, 0x6f, 0x6d, 0x00, 0x00, 0x02,
        0x00, 0x69, 0x73, 0x6f, 0x6d, 0x69, 0x73, 0x6f, 0x32,
    ];
    proof {
        let b = boxes();
        assert(v@.subrange(4, 8) =~= b[0]);
        assert(stands_at(v@, b[0], 4));
    }
    v
}


/// A byte that ends a path.
pub open spec fn ends_path(b: u8) -> bool {
    b == 10 || b == 0
}

/// Where the first path that starts at `i` ends, from byte `j` on: at a byte
/// that ends one, if there is one.
pub open spec fn path_end(bytes: Seq<u8>, j: int) -> Option<int>
    decreases bytes.len() - j,
{
    if j < 0 || j >= bytes.len() {
        None
    } else if ends_path(bytes[j]) {
        Some(j)
    } else {
        path_end(bytes, j + 1)
    }
}

proof fn path_end_is_later(bytes: Seq<u8>, j: int)
    requires
        0 <= j <= bytes.len(),
    ensures
        path_end(bytes, j) matches Some(e) ==> j <= e < bytes.len() && ends_path(bytes[e]),
    decreases bytes.len() - j,
{
    if j < bytes.len() && !ends_path(bytes[j]) {
        path_end_is_later(bytes, j + 1);
    }
}

/// The paths that end in `bytes`, from byte `i` on.
pub open spec fn paths_in(bytes: Seq<u8>, i: int) -> Seq<Seq<u8>>
    decreases bytes.len() - i,
{
    if i < 0 || i > bytes.len() {
        Seq::empty()
    } else {
        match path_end(bytes, i) {
            Some(e) => if i <= e < bytes.len() {
                seq![bytes.subrange(i, e)] + paths_in(bytes, e + 1)
            } else {
                Seq::empty()
            },
            None => Seq::empty(),
        }
    }
}

/// What is left of `bytes` after the last path that ends in it, from byte `i`
/// on.
pub open spec fn path_rest(bytes: Seq<u8>, i: int) -> Seq<u8>
    decreases bytes.len() - i,
{
    if i < 0 || i > bytes.len() {
        Seq::empty()
    } else {
        match path_end(bytes, i) {
            Some(e) => if i <= e < bytes.len() {
                path_rest(bytes, e + 1)
            } else {
                Seq::empty()
            },
            None => bytes.subrange(i, bytes.len() as int),
        }
    }
}

/// The bytes of each of some paths.
pub open spec fn byte_lists(v: Seq<Vec<u8>>) -> Seq<Seq<u8>> {
    v.map_values(|b: Vec<u8>| b@)
}

fn slice(bytes: &Vec<u8>, from: usize, to: usize) -> (v: Vec<u8>)
    requires
        from <= to <= bytes@.len(),
    ensures
        v@ == bytes@.subrange(from as int, to as int),
{
    let mut v: Vec<u8> = Vec::new();
    let mut i: usize = from;
    while i < to
        invariant
            from <= i <= to <= bytes@.len(),
            v@ == bytes@.subrange(from as int, i as int),
        decreases to - i,
    {
        v.push(bytes[i]);
        i += 1;
        assert(v@ =~= bytes@.subrange(from as int, i as int));
    }
    v
}

fn find_end(bytes: &Vec<u8>, from: usize) -> (r: Option<usize>)
    requires
        from <= bytes@.len(),
    ensures
        match r {
            Some(e) => path_end(bytes@, from as int) == Some(e as int) && from <= e
                < bytes@.len(),
            None => path_end(bytes@, from as int) is None,
        },
{
    let mut j: usize = from;
    while j < bytes.len()
        invariant
            from <= j <= bytes@.len(),
            path_end(bytes@, j as int) == path_end(bytes@, from as int),
        decreases bytes@.len() - j,
    {
        if bytes[j] == 10 || bytes[j] == 0 {
            return Some(j);
        }
        j += 1;
    }
    None
}

/// Takes a chunk of the input in: returns the paths that end in what is there by
/// now, and keeps what follows the last of them.
pub fn take_paths(pending: &mut Vec<u8>, chunk: &Vec<u8>) -> (v: Vec<Vec<u8>>)
    ensures
        byte_lists(v@) == paths_in(old(pending)@ + chunk@, 0),
        final(pending)@ == path_rest(old(pending)@ + chunk@, 0),
{
    let mut i: usize = 0;
    let ghost before = pending@;
    while i < chunk.len()
        invariant
            i <= chunk@.len(),
            pending@ == before + chunk@.subrange(0, i as int),
        decreases chunk@.len() - i,
    {
        pending.push(chunk[i]);
        i += 1;
        assert(pending@ =~= before + chunk@.subrange(0, i as int));
    }
    assert(chunk@.subrange(0, chunk@.len() as int) =~= chunk@);
    let ghost all = pending@;
    let total: usize = pending.len();
    let mut v: Vec<Vec<u8>> = Vec::new();
    let mut start: usize = 0;
    let mut more = true;
    assert(byte_lists(v@) + paths_in(all, 0) =~= paths_in(all, 0));
    while more
        invariant
            start <= all.len(),
            total == all.len(),
            pending@ == all,
            more ==> byte_lists(v@) + paths_in(all, start as int) == paths_in(all, 0) && path_rest(
                all,
                start as int,
            ) == path_rest(all, 0),
            !more ==> byte_lists(v@) == paths_in(all, 0) && all.subrange(
                start as int,
                all.len() as int,
            ) == path_rest(all, 0),
        decreases all.len() - start + (if more {
            1int
        } else {
            0int
        }),
    {
        match find_end(pending, start) {
            Some(e) => {
                let p = slice(pending, start, e);
                let ghost lists = byte_lists(v@);
                v.push(p);
                proof {
                    assert(byte_lists(v@) =~= lists.push(p@));
                    assert(lists + (seq![p@] + paths_in(all, e + 1)) =~= lists.push(p@) + paths_in(
                        all,
                        e + 1,
                    ));
                }
                start = e + 1;
            },
            None => {
                more = false;
                assert(byte_lists(v@) + Seq::<Seq<u8>>::empty() =~= byte_lists(v@));
            },
        }
    }
    let rest = slice(pending, start, pending.len());
    *pending = rest;
    v
}

/// A path without the carriage return that may end its line.
pub open spec fn line_path(bytes: Seq<u8>) -> Seq<u8> {
    if bytes.len() > 0 && bytes.last() == 13 {
        bytes.drop_last()
    } else {
        bytes
    }
}

/// A path as it stood on its line; none where the line is empty.
pub fn trim_line(bytes: &Vec<u8>) -> (r: Option<Vec<u8>>)
    ensures
        match r {
            Some(v) => v@ == line_path(bytes@) && v@.len() > 0,
            None => line_path(bytes@).len() == 0,
        },
{
    let n: usize = bytes.len();
    let end: usize = if n > 0 && bytes[n - 1] == 13 {
        n - 1
    } else {
        n
    };
    let v = slice(bytes, 0, end);
    assert(v@ =~= line_path(bytes@));
    if v.len() == 0 {
        None
    } else {
        Some(v)
    }
}

/// What is known of a file or a directory.
#[derive(Clone, Copy, PartialEq, Eq, Structural, Debug)]
pub struct Stat {
    pub is_dir: bool,
    pub len: u64,
}

/// What becomes of a path that was given.
#[derive(Clone, Copy, PartialEq, Eq, Structural, Debug)]
pub enum Route {
    /// Its directory is walked.
    Walk,
    /// It was never a candidate.
    Skip,
    /// It was one, and is refused.
    Reject,
    /// Its head must be looked at first.
    Sniff { len: u64 },
    /// It becomes a clip.
    Admit { readable: bool },
}

/// What becomes of a path that was given: directories are walked where that is
/// set, other files than videos are passed over, and a path without a file is
/// refused unless its data is elsewhere. A file whose data is here is looked
/// into where that is set.
pub open spec fn routed(
    stat: Option<Stat>,
    video: bool,
    cloud: bool,
    recurse: bool,
    check: bool,
) -> Route {
    match stat {
        Some(m) => if m.is_dir {
            if recurse {
                Route::Walk
            } else {
                Route::Skip
            }
        } else if !video {
            Route::Skip
        } else if check && !cloud {
            Route::Sniff { len: m.len }
        } else {
            Route::Admit { readable: true }
        },
        None => if !video {
            Route::Skip
        } else if cloud {
            Route::Admit { readable: false }
        } else {
            Route::Reject
        },
    }
}

/// What becomes of a path that was given.
pub fn route_path(stat: Option<Stat>, video: bool, cloud: bool, recurse: bool, check: bool) -> (r:
    Route)
    ensures
        r == routed(stat, video, cloud, recurse, check),
{
    match stat {
        Some(m) => {
            if m.is_dir {
                if recurse {
                    Route::Walk
                } else {
                    Route::Skip
                }
            } else if !video {
                Route::Skip
            } else if check && !cloud {
                Route::Sniff { len: m.len }
            } else {
                Route::Admit { readable: true }
            }
        },
        None => {
            if !video {
                Route::Skip
            } else if cloud {
                Route::Admit { readable: false }
            } else {
                Route::Reject
            }
        },
    }
}

/// What becomes of a file that was looked into.
pub fn route_sniffed(e: Option<&Vec<char>>, len: u64, head: Option<&Vec<u8>>) -> (r: Route)
    ensures
        r == (if plausible(ext_chars(e), len, head_bytes(head)) {
            Route::Admit { readable: true }
        } else {
            Route::Reject
        }),
{
    if plausible_video(e, len, head) {
        Route::Admit { readable: true }
    } else {
        Route::Reject
    }
}

/// An entry of a directory.
#[derive(Clone, Copy, PartialEq, Eq, Structural, Debug)]
pub enum EntryKind {
    Dir,
    File,
    /// A link, or something else.
    Other,
}

/// What becomes of an entry of a directory at a depth: hidden ones are passed
/// over, directories are walked as deep as is set, and a video file, whose stat
/// may fail, is looked into where that is set.
pub open spec fn entry_routed(
    hidden: bool,
    kind: EntryKind,
    video: bool,
    depth: usize,
    max_depth: usize,
) -> Route {
    if hidden {
        Route::Skip
    } else {
        match kind {
            EntryKind::Dir => if depth < max_depth {
                Route::Walk
            } else {
                Route::Skip
            },
            EntryKind::File => if video {
                Route::Sniff { len: 0 }
            } else {
                Route::Skip
            },
            EntryKind::Other => Route::Skip,
        }
    }
}

/// What becomes of an entry of a directory; a file to be looked at is still to
/// be asked for its length.
pub fn route_entry(hidden: bool, kind: EntryKind, video: bool, depth: usize, max_depth: usize) -> (r:
    Route)
    ensures
        r == entry_routed(hidden, kind, video, depth, max_depth),
{
    if hidden {
        return Route::Skip;
    }
    match kind {
        EntryKind::Dir => if depth < max_depth {
            Route::Walk
        } else {
            Route::Skip
        },
        EntryKind::File => if video {
            Route::Sniff { len: 0 }
        } else {
            Route::Skip
        },
        EntryKind::Other => Route::Skip,
    }
}

/// What becomes of a video file of a directory once its stat is known.
pub fn route_listed(stat: Option<u64>, cloud: bool, check: bool) -> (r: Route)
    ensures
        r == (match stat {
            Some(len) => if check && !cloud {
                Route::Sniff { len }
            } else {
                Route::Admit { readable: true }
            },
            None => Route::Admit { readable: false },
        }),
{
    match stat {
        Some(len) => if check && !cloud {
            Route::Sniff { len }
        } else {
            Route::Admit { readable: true }
        },
        None => Route::Admit { readable: false },
    }
}

/// An entry is hidden.
pub open spec fn is_hidden_name(name: Seq<u8>) -> bool {
    name.len() > 0 && name[0] == 0x2e
}

/// The end of a download stub's name.
pub open spec fn stub_suffix() -> Seq<u8> {
    seq![0x2eu8, 0x69, 0x63, 0x6c, 0x6f, 0x75, 0x64]
}

/// The name that a download stub stands for: it hides the name behind a dot and
/// adds an end of its own.
pub open spec fn stub_of(name: Seq<u8>) -> Option<Seq<u8>> {
    let n = name.len() as int;
    if is_hidden_name(name) && n >= 8 && name.subrange(n - 7, n) == stub_suffix() {
        Some(name.subrange(1, n - 7))
    } else {
        None
    }
}

/// Whether an entry is hidden.
pub fn is_hidden(name: &Vec<u8>) -> (r: bool)
    ensures
        r == is_hidden_name(name@),
{
    name.len() > 0 && name[0] == 0x2e
}

/// The name that a download stub stands for.
pub fn stub_original(name: &Vec<u8>) -> (r: Option<Vec<u8>>)
    ensures
        match r {
            Some(v) => stub_of(name@) == Some(v@),
            None => stub_of(name@) is None,
        },
{
    let n: usize = name.len();
    if n < 8 || name[0] != 0x2e {
        return None;
    }
    let suffix: Vec<u8> = vec![0x2e, 0x69, 0x63, 0x6c, 0x6f, 0x75, 0x64];
    assert(suffix@ =~= stub_suffix());
    let mut i: usize = 0;
    while i < 7
        invariant
            i <= 7,
            n == name@.len(),
            n >= 8,
            suffix@ == stub_suffix(),
            forall|k: int| 0 <= k < i ==> name@[n - 7 + k] == (#[trigger] suffix@[k]),
        decreases 7 - i,
    {
        if name[n - 7 + i] != suffix[i] {
            assert(name@.subrange(n - 7, n as int)[i as int] != stub_suffix()[i as int]);
            return None;
        }
        i += 1;
    }
    assert(name@.subrange(n - 7, n as int) =~= stub_suffix());
    Some(slice(name, 1, n - 7))
}

/// The name of the download stub of a file.
pub fn stub_name(name: &Vec<u8>) -> (v: Vec<u8>)
    ensures
        v@ == seq![0x2eu8] + name@ + stub_suffix(),
{
    let mut v: Vec<u8> = vec![0x2e];
    let mut i: usize = 0;
    assert(v@ =~= seq![0x2eu8] + name@.subrange(0, 0));
    while i < name.len()
        invariant
            i <= name@.len(),
            v@ == seq![0x2eu8] + name@.subrange(0, i as int),
        decreases name@.len() - i,
    {
        v.push(name[i]);
        i += 1;
        assert(v@ =~= seq![0x2eu8] + name@.subrange(0, i as int));
    }
    v.push(0x2e);
    v.push(0x69);
    v.push(0x63);
    v.push(0x6c);
    v.push(0x6f);
    v.push(0x75);
    v.push(0x64);
    assert(v@ =~= seq![0x2eu8] + name@ + stub_suffix());
    v
}

/// A stub's name leads back to the file's.
pub proof fn stub_leads_back(name: Seq<u8>)
    ensures
        stub_of(seq![0x2eu8] + name + stub_suffix()) == Some(name),
{
    let s = seq![0x2eu8] + name + stub_suffix();
    let n = s.len() as int;
    assert(s.subrange(n - 7, n) =~= stub_suffix());
    assert(s.subrange(1, n - 7) =~= name);
}

/// Whether the flags of a file say that its data is not here.
pub fn is_dataless(flags: u32) -> (r: bool)
    ensures
        r == (flags & SF_DATALESS != 0),
{
    flags & SF_DATALESS != 0
}

/// However the input is cut into chunks, the same paths come out: what two chunks
/// yield one after the other is what they yield together.
pub proof fn chunks_yield_what_they_hold(a: Seq<u8>, b: Seq<u8>, i: int)
    requires
        0 <= i <= a.len(),
    ensures
        paths_in(a + b, i) == paths_in(a, i) + paths_in(path_rest(a, i) + b, 0),
        path_rest(a + b, i) == path_rest(path_rest(a, i) + b, 0),
    decreases a.len() - i,
{
    path_end_is_later(a, i);
    match path_end(a, i) {
        Some(e) => {
            end_within(a, b, i);
            chunks_yield_what_they_hold(a, b, e + 1);
            assert((a + b).subrange(i, e) =~= a.subrange(i, e));
            let rest = paths_in(path_rest(a, i) + b, 0);
            assert(seq![a.subrange(i, e)] + (paths_in(a, e + 1) + rest) =~= (seq![a.subrange(i, e)]
                + paths_in(a, e + 1)) + rest);
        },
        None => {
            let t = a.subrange(i, a.len() as int) + b;
            assert(t =~= (a + b).subrange(i, (a + b).len() as int));
            shifted_paths(a + b, i, 0);
            assert(paths_in(a, i) + paths_in(t, 0) =~= paths_in(t, 0));
        },
    }
}

proof fn end_within(a: Seq<u8>, b: Seq<u8>, i: int)
    requires
        0 <= i <= a.len(),
        path_end(a, i) is Some,
    ensures
        path_end(a + b, i) == path_end(a, i),
    decreases a.len() - i,
{
    assert(i < a.len());
    assert((a + b)[i] == a[i]);
    if !ends_path(a[i]) {
        end_within(a, b, i + 1);
    }
}

proof fn shifted_end(s: Seq<u8>, i: int, j: int)
    requires
        0 <= i <= s.len(),
        0 <= j <= s.len() - i,
    ensures
        path_end(s.subrange(i, s.len() as int), j) == (match path_end(s, i + j) {
            Some(e) => Some(e - i),
            None => None,
        }),
    decreases s.len() - i - j,
{
    let t = s.subrange(i, s.len() as int);
    if j < t.len() && !ends_path(t[j]) {
        shifted_end(s, i, j + 1);
    }
}

proof fn shifted_paths(s: Seq<u8>, i: int, j: int)
    requires
        0 <= i <= s.len(),
        0 <= j <= s.len() - i,
    ensures
        paths_in(s.subrange(i, s.len() as int), j) == paths_in(s, i + j),
        path_rest(s.subrange(i, s.len() as int), j) == path_rest(s, i + j),
    decreases s.len() - i - j,
{
    let t = s.subrange(i, s.len() as int);
    shifted_end(s, i, j);
    path_end_is_later(s, i + j);
    match path_end(s, i + j) {
        Some(e) => {
            shifted_paths(s, i, e - i + 1);
            assert(t.subrange(j, e - i) =~= s.subrange(i + j, e));
        },
        None => {
            assert(t.subrange(j, t.len() as int) =~= s.subrange(i + j, s.len() as int));
        },
    }
}

/// Name `a`, from its byte `i` on, comes before name `b`: at the first byte where
/// they differ, or by being shorter.
pub open spec fn bytes_before(a: Seq<u8>, b: Seq<u8>, i: int) -> bool
    decreases b.len() - i,
{
    if i < 0 || i >= b.len() {
        false
    } else if i >= a.len() {
        true
    } else if a[i] != b[i] {
        a[i] < b[i]
    } else {
        bytes_before(a, b, i + 1)
    }
}

/// Entry `i` is listed before entry `j`: by its name, or by having come first where
/// the names are the same.
pub open spec fn listed_before(names: Seq<Seq<u8>>, i: int, j: int) -> bool {
    bytes_before(names[i], names[j], 0) || (names[i] == names[j] && i < j)
}

/// The entries are listed one before the other.
pub open spec fn in_listing_order(names: Seq<Seq<u8>>, order: Seq<usize>) -> bool {
    forall|a: int, b: int|
        0 <= a < b < order.len() ==> listed_before(
            names,
            #[trigger] order[a] as int,
            #[trigger] order[b] as int,
        )
}

proof fn bytes_chain(a: Seq<u8>, b: Seq<u8>, c: Seq<u8>, i: int)
    requires
        0 <= i,
        bytes_before(a, b, i),
        bytes_before(b, c, i),
    ensures
        bytes_before(a, c, i),
    decreases b.len() - i,
{
    if i < a.len() && i < b.len() && i < c.len() && a[i] == b[i] && b[i] == c[i] {
        bytes_chain(a, b, c, i + 1);
    }
}

proof fn bytes_agree(a: Seq<u8>, b: Seq<u8>, i: int)
    requires
        0 <= i <= a.len(),
        i <= b.len(),
        a.take(i) == b.take(i),
        !bytes_before(a, b, i),
    ensures
        bytes_before(b, a, i) || a == b,
    decreases b.len() - i,
{
    if i < a.len() && i < b.len() && a[i] == b[i] {
        assert(a.take(i + 1) =~= a.take(i).push(a[i]));
        assert(b.take(i + 1) =~= b.take(i).push(b[i]));
        bytes_agree(a, b, i + 1);
    } else if i == a.len() && i == b.len() {
        assert(a =~= a.take(i));
        assert(b =~= b.take(i));
    }
}

proof fn not_before_itself(a: Seq<u8>, i: int)
    requires
        0 <= i,
    ensures
        !bytes_before(a, a, i),
    decreases a.len() - i,
{
    if i < a.len() {
        not_before_itself(a, i + 1);
    }
}

/// The order of a listing goes on from entry to entry, and no entry is listed
/// before itself.
pub proof fn listings_are_ordered(names: Seq<Seq<u8>>, i: int, j: int, k: int)
    ensures
        listed_before(names, i, j) && listed_before(names, j, k) ==> listed_before(names, i, k),
        !listed_before(names, i, i),
        i < j && !bytes_before(names[j], names[i], 0) ==> listed_before(names, i, j),
{
    let (a, b, c) = (names[i], names[j], names[k]);
    if bytes_before(a, b, 0) && bytes_before(b, c, 0) {
        bytes_chain(a, b, c, 0);
    }
    not_before_itself(a, 0);
    if !bytes_before(b, a, 0) {
        assert(b.take(0) =~= a.take(0));
        bytes_agree(b, a, 0);
    }
}

fn name_before(a: &Vec<u8>, b: &Vec<u8>) -> (r: bool)
    ensures
        r == bytes_before(a@, b@, 0),
{
    let mut i: usize = 0;
    while i < b.len()
        invariant
            i <= b@.len(),
            i <= a@.len(),
            bytes_before(a@, b@, i as int) == bytes_before(a@, b@, 0),
        decreases b@.len() - i,
    {
        if i >= a.len() {
            return true;
        }
        if a[i] != b[i] {
            return a[i] < b[i];
        }
        i += 1;
    }
    false
}

proof fn push_keeps(s: Seq<usize>, x: usize)
    ensures
        s.push(x).contains(x),
        forall|y: usize| s.contains(y) ==> #[trigger] s.push(x).contains(y),
{
    assert(s.push(x)[s.len() as int] == x);
    assert forall|y: usize| s.contains(y) implies #[trigger] s.push(x).contains(y) by {
        let k = choose|k: int| 0 <= k < s.len() && s[k] == y;
        assert(s.push(x)[k] == y);
    }
}

/// The entries `lo..hi`, each once, in the order of a listing.
spec fn sorts(names: Seq<Seq<u8>>, lo: int, hi: int, order: Seq<usize>) -> bool {
    &&& order.len() == hi - lo
    &&& forall|k: int| 0 <= k < order.len() ==> lo <= #[trigger] order[k] < hi
    &&& forall|o: usize| lo <= o < hi ==> #[trigger] order.contains(o)
    &&& in_listing_order(names, order)
}

/// All of `out` is listed before what `v` has from `k` on.
spec fn all_before(names: Seq<Seq<u8>>, out: Seq<usize>, v: Seq<usize>, k: int) -> bool {
    forall|a: int, b: int|
        0 <= a < out.len() && k <= b < v.len() ==> listed_before(
            names,
            #[trigger] out[a] as int,
            #[trigger] v[b] as int,
        )
}

/// `out`, with the `k`th of `v` behind it, is still in order, and still before the
/// rest of `v` and all that `w` has from `m` on.
proof fn next_is_in_order(
    names: Seq<Seq<u8>>,
    out: Seq<usize>,
    v: Seq<usize>,
    k: int,
    w: Seq<usize>,
    m: int,
)
    requires
        in_listing_order(names, out),
        in_listing_order(names, v),
        in_listing_order(names, w),
        all_before(names, out, v, k),
        all_before(names, out, w, m),
        0 <= k < v.len(),
        0 <= m,
        m < w.len() ==> listed_before(names, v[k] as int, w[m] as int),
    ensures
        in_listing_order(names, out.push(v[k])),
        all_before(names, out.push(v[k]), v, k + 1),
        all_before(names, out.push(v[k]), w, m),
{
    let more = out.push(v[k]);
    assert forall|a: int, b: int| 0 <= a < more.len() && m <= b < w.len() implies listed_before(
        names,
        #[trigger] more[a] as int,
        #[trigger] w[b] as int,
    ) by {
        if a == out.len() {
            if m < b {
                assert(listed_before(names, w[m] as int, w[b] as int));
            }
            listings_are_ordered(names, v[k] as int, w[m] as int, w[b] as int);
        } else {
            assert(more[a] == out[a]);
        }
    }
    assert forall|a: int, b: int| 0 <= a < more.len() && k + 1 <= b < v.len() implies listed_before(
        names,
        #[trigger] more[a] as int,
        #[trigger] v[b] as int,
    ) by {
        if a < out.len() {
            assert(more[a] == out[a]);
        }
    }
    assert forall|a: int, b: int| 0 <= a < b < more.len() implies listed_before(
        names,
        #[trigger] more[a] as int,
        #[trigger] more[b] as int,
    ) by {
        assert(more[a] == out[a]);
        if b < out.len() {
            assert(more[b] == out[b]);
        }
    }
}

fn merge(names: &Vec<Vec<u8>>, lo: usize, mid: usize, hi: usize, v: &Vec<usize>, w: &Vec<usize>) -> (r:
    Vec<usize>)
    requires
        lo <= mid <= hi <= names@.len(),
        sorts(byte_lists(names@), lo as int, mid as int, v@),
        sorts(byte_lists(names@), mid as int, hi as int, w@),
    ensures
        sorts(byte_lists(names@), lo as int, hi as int, r@),
{
    let ghost all = byte_lists(names@);
    let mut r: Vec<usize> = Vec::new();
    let mut k: usize = 0;
    let mut m: usize = 0;
    while k < v.len() || m < w.len()
        invariant
            all == byte_lists(names@),
            lo <= mid <= hi <= names@.len(),
            sorts(all, lo as int, mid as int, v@),
            sorts(all, mid as int, hi as int, w@),
            k <= v@.len(),
            m <= w@.len(),
            r@.len() == k + m,
            forall|a: int| 0 <= a < r@.len() ==> lo <= #[trigger] r@[a] < hi,
            forall|a: int| 0 <= a < k ==> r@.contains(#[trigger] v@[a]),
            forall|a: int| 0 <= a < m ==> r@.contains(#[trigger] w@[a]),
            in_listing_order(all, r@),
            all_before(all, r@, v@, k as int),
            all_before(all, r@, w@, m as int),
        decreases v@.len() - k + w@.len() - m,
    {
        let first: bool = k < v.len() && (m >= w.len() || !name_before(
            &names[w[m]],
            &names[v[k]],
        ));
        if first {
            proof {
                if m < w@.len() {
                    listings_are_ordered(all, v@[k as int] as int, w@[m as int] as int, 0);
                }
                next_is_in_order(all, r@, v@, k as int, w@, m as int);
                push_keeps(r@, v@[k as int]);
            }
            r.push(v[k]);
            k += 1;
        } else {
            proof {
                next_is_in_order(all, r@, w@, m as int, v@, k as int);
                push_keeps(r@, w@[m as int]);
            }
            r.push(w[m]);
            m += 1;
        }
    }
    proof {
        assert forall|o: usize| lo <= o < hi implies #[trigger] r@.contains(o) by {
            if o < mid {
                assert(v@.contains(o));
            } else {
                assert(w@.contains(o));
            }
        }
    }
    r
}

fn sort_entries(names: &Vec<Vec<u8>>, lo: usize, hi: usize) -> (r: Vec<usize>)
    requires
        lo <= hi <= names@.len(),
    ensures
        sorts(byte_lists(names@), lo as int, hi as int, r@),
    decreases hi - lo,
{
    if lo >= hi {
        return Vec::new();
    }
    if hi - lo == 1 {
        let mut r: Vec<usize> = Vec::new();
        r.push(lo);
        assert(r@[0] == lo);
        return r;
    }
    let mid: usize = lo + (hi - lo) / 2;
    let v = sort_entries(names, lo, mid);
    let w = sort_entries(names, mid, hi);
    merge(names, lo, mid, hi, &v, &w)
}

/// The order in which the entries of a directory are taken, given their names as
/// they were found: by name, byte for byte.
pub fn entry_order(names: &Vec<Vec<u8>>) -> (r: Vec<usize>)
    ensures
        crate::library::is_order(r@, names@.len() as int),
        in_listing_order(byte_lists(names@), r@),
{
    let r = sort_entries(names, 0, names.len());
    proof {
        let all = byte_lists(names@);
        assert forall|a: int, b: int| 0 <= a < b < names@.len() implies #[trigger] r@[a]
            != #[trigger] r@[b] by {
            listings_are_ordered(all, r@[a] as int, r@[b] as int, 0);
        }
    }
    r
}

} // verus!
