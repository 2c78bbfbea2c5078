//! The project file: its header, the list of recent projects, and which geometry
//! resources are shared after loading.

use vstd::prelude::*;
use crate::paths::{is_plain, same_path};
use crate::text::{decimal, push_decimal, same_text, texts_of};

verus! {

/// The version that a file is stamped with. It never keeps a file from loading.
pub const FORMAT: u32 = 1;

/// The file extension, without the dot.
pub const EXT: &'static str = "glow";

/// How many bytes come before the body.
pub const HEAD: usize = 9;

/// How many recent projects are kept.
pub const RECENT_CAP: usize = 12;

/// The bytes that every project file starts with.
pub open spec fn magic() -> Seq<u8> {
    seq![71, 76, 79, 87, 0]
}

/// A number as four bytes, the lowest first.
pub open spec fn le_bytes(v: u32) -> Seq<u8> {
    seq![
        (v % 256) as u8,
        (v / 256 % 256) as u8,
        (v / 65536 % 256) as u8,
        (v / 16777216) as u8,
    ]
}

/// The number that four bytes stand for, the lowest first.
pub open spec fn le_value(b: Seq<u8>) -> int {
    b[0] + 256 * b[1] + 65536 * b[2] + 16777216 * b[3]
}

/// A project file: the magic, the version and the body.
pub open spec fn framed(format: u32, body: Seq<u8>) -> Seq<u8> {
    magic() + le_bytes(format) + body
}

/// Put the header before an encoded body.
pub fn frame(format: u32, body: &Vec<u8>) -> (r: Vec<u8>)
    ensures
        r@ == framed(format, body@),
{
    let mut out: Vec<u8> = vec![71, 76, 79, 87, 0];
    out.push((format % 256) as u8);
    out.push((format / 256 % 256) as u8);
    out.push((format / 65536 % 256) as u8);
    out.push((format / 16777216) as u8);
    assert(out@ =~= magic() + le_bytes(format));
    let ghost head = out@;
    let mut i: usize = 0;
    while i < body.len()
        invariant
            i <= body@.len(),
            out@ == head + body@.take(i as int),
        decreases body@.len() - i,
    {
        out.push(body[i]);
        assert(out@ =~= head + body@.take(i + 1));
        i = i + 1;
    }
    assert(out@ =~= framed(format, body@));
    out
}

/// Why a file is not read.
#[derive(Clone, Copy, Debug, PartialEq, Eq, Structural)]
pub enum ReadError {
    /// It does not start like a project file.
    BadMagic,
    /// It ends within the header.
    Truncated,
}

impl ReadError {
    /// The error in words.
    pub fn message(self) -> (r: &'static str)
        ensures
            r@ == (match self {
                ReadError::BadMagic => "not a glowstone project (bad magic)"@,
                ReadError::Truncated => "truncated project file"@,
            }),
    {
        match self {
            ReadError::BadMagic => "not a glowstone project (bad magic)",
            ReadError::Truncated => "truncated project file",
        }
    }
}

/// Does the file start with the magic?
pub open spec fn has_magic(bytes: Seq<u8>) -> bool {
    bytes.len() >= 5 && bytes.take(5) == magic()
}

/// Read the header of a file: the version that it is stamped with. The body
/// follows the header.
pub fn read_header(bytes: &Vec<u8>) -> (r: Result<u32, ReadError>)
    ensures
        r == (if !has_magic(bytes@) {
            Err(ReadError::BadMagic)
        } else if bytes@.len() < HEAD {
            Err(ReadError::Truncated)
        } else {
            Ok(le_value(bytes@.subrange(5, 9)) as u32)
        }),
{
    let n: usize = bytes.len();
    if n < 5 || bytes[0] != 71 || bytes[1] != 76 || bytes[2] != 79 || bytes[3] != 87 || bytes[4]
        != 0 {
        proof {
            if n >= 5 && bytes@.take(5) == magic() {
                assert(bytes@.take(5)[0] == 71);
                assert(bytes@.take(5)[1] == 76);
                assert(bytes@.take(5)[2] == 79);
                assert(bytes@.take(5)[3] == 87);
                assert(bytes@.take(5)[4] == 0);
            }
        }
        return Err(ReadError::BadMagic);
    }
    assert(bytes@.take(5) =~= magic());
    if n < HEAD {
        return Err(ReadError::Truncated);
    }
    let v: u32 = bytes[5] as u32 + 256 * (bytes[6] as u32) + 65536 * (bytes[7] as u32) + 16777216
        * (bytes[8] as u32);
    Ok(v)
}

/// The body of a file.
pub fn body_of(bytes: &Vec<u8>) -> (r: Vec<u8>)
    requires
        bytes@.len() >= HEAD,
    ensures
        r@ == bytes@.skip(9),
{
    let mut out: Vec<u8> = Vec::new();
    let mut i: usize = HEAD;
    while i < bytes.len()
        invariant
            HEAD <= i <= bytes@.len(),
            out@ == bytes@.subrange(9, i as int),
        decreases bytes@.len() - i,
    {
        out.push(bytes[i]);
        assert(out@ =~= bytes@.subrange(9, i + 1));
        i = i + 1;
    }
    assert(out@ =~= bytes@.skip(9));
    out
}

/// What is reported where the body does not decode: a file from a newer version
/// is called that.
pub fn decode_message(version: u32, error: &str) -> (r: String)
    ensures
        r@ == decode_words(version, error@),
{
    if version > FORMAT {
        let mut s = "this show was saved by a newer glowstone (v".to_owned();
        push_decimal(&mut s, version as u128);
        s.push_str(" > v");
        push_decimal(&mut s, FORMAT as u128);
        s.push_str("); some of it may not load — ");
        s.push_str(error);
        s
    } else {
        let mut s = "decode: ".to_owned();
        s.push_str(error);
        s
    }
}

/// A project in memory: the version that it is stamped with, and what its body
/// decodes to.
#[derive(Debug)]
pub struct Project<B> {
    pub format: u32,
    pub body: B,
}

/// The words for a body of the given version that does not decode.
pub open spec fn decode_words(version: u32, error: Seq<char>) -> Seq<char> {
    if version > FORMAT {
        "this show was saved by a newer glowstone (v"@ + decimal(version as nat) + " > v"@
            + decimal(FORMAT as nat) + "); some of it may not load — "@ + error
    } else {
        "decode: "@ + error
    }
}

/// Is `r` what opening a body of the given version gives? What it decodes to is
/// stamped with the current version, whatever version it was written by.
pub open spec fn opens_as<B>(
    version: u32,
    decoded: Result<B, String>,
    r: Result<Project<B>, String>,
) -> bool {
    match decoded {
        Ok(body) => r == Ok::<Project<B>, String>(Project { format: FORMAT, body }),
        Err(e) => r matches Err(m) && m@ == decode_words(version, e@),
    }
}

/// Open a project of the given version, from what its body decodes to.
pub fn opened<B>(version: u32, decoded: Result<B, String>) -> (r: Result<Project<B>, String>)
    ensures
        opens_as(version, decoded, r),
{
    match decoded {
        Ok(body) => Ok(Project { format: FORMAT, body }),
        Err(e) => Err(decode_message(version, e.as_str())),
    }
}

/// Is `r` what reading a file gives? The magic and the length come first; then
/// what follows the header is decoded, and that is opened.
pub open spec fn reads_as<B, D: Fn(&Vec<u8>) -> Result<B, String>>(
    bytes: Seq<u8>,
    decode: D,
    r: Result<Project<B>, String>,
) -> bool {
    if !has_magic(bytes) {
        r matches Err(m) && m@ == "not a glowstone project (bad magic)"@
    } else if bytes.len() < HEAD {
        r matches Err(m) && m@ == "truncated project file"@
    } else {
        exists|body: Vec<u8>, decoded: Result<B, String>|
            body@ == bytes.skip(9) && #[trigger] call_ensures(decode, (&body,), decoded)
                && opens_as(le_value(bytes.subrange(5, 9)) as u32, decoded, r)
    }
}

/// Read a project from the bytes of its file. `decode` decodes the body.
pub fn read_bytes<B, D: Fn(&Vec<u8>) -> Result<B, String>>(bytes: &Vec<u8>, decode: D) -> (r: Result<
    Project<B>,
    String,
>)
    requires
        forall|body: &Vec<u8>| #[trigger] call_requires(decode, (body,)),
    ensures
        reads_as(bytes@, decode, r),
{
    match read_header(bytes) {
        Ok(version) => {
            let body = body_of(bytes);
            let decoded = decode(&body);
            assert(call_ensures(decode, (&body,), decoded));
            opened(version, decoded)
        },
        Err(e) => Err(e.message().to_owned()),
    }
}

/// What is written is read back: of a file with an encoded body, whatever version
/// stamps it, a decoder that gives the body back reads it, stamped as current.
pub proof fn saved_project_is_read_back<B, D: Fn(&Vec<u8>) -> Result<B, String>>(
    format: u32,
    encoded: Seq<u8>,
    body: B,
    decode: D,
    r: Result<Project<B>, String>,
)
    requires
        forall|bytes: Vec<u8>, decoded: Result<B, String>|
            bytes@ == encoded && #[trigger] call_ensures(decode, (&bytes,), decoded) ==> decoded
                == Ok::<B, String>(body),
        reads_as(framed(format, encoded), decode, r),
    ensures
        r == Ok::<Project<B>, String>(Project { format: FORMAT, body }),
{
    header_round_trip(format, encoded);
}

/// A file that does not start with the magic, or that ends within the header, is
/// refused, whatever the decoder.
pub proof fn foreign_and_cut_files_are_refused<B, D: Fn(&Vec<u8>) -> Result<B, String>>(
    bytes: Seq<u8>,
    decode: D,
    r: Result<Project<B>, String>,
)
    requires
        reads_as(bytes, decode, r),
        !has_magic(bytes) || bytes.len() < HEAD,
    ensures
        r is Err,
{
}

/// The version stamp never decides whether a file is read, nor as what: of two
/// files that differ in it alone, either both are read, as the same project, or
/// both are refused. The decoder gives the same for the same bytes.
pub proof fn version_stamp_decides_nothing<B, D: Fn(&Vec<u8>) -> Result<B, String>>(
    a: Seq<u8>,
    b: Seq<u8>,
    decode: D,
    ra: Result<Project<B>, String>,
    rb: Result<Project<B>, String>,
)
    requires
        a.len() == b.len() >= HEAD,
        forall|i: int| 0 <= i < a.len() && !(5 <= i < 9) ==> #[trigger] a[i] == b[i],
        forall|x: Vec<u8>, y: Vec<u8>, dx: Result<B, String>, dy: Result<B, String>|
            x@ == y@ && #[trigger] call_ensures(decode, (&x,), dx) && #[trigger] call_ensures(
                decode,
                (&y,),
                dy,
            ) ==> match (dx, dy) {
                (Ok(p), Ok(q)) => p == q,
                (Err(_), Err(_)) => true,
                _ => false,
            },
        reads_as(a, decode, ra),
        reads_as(b, decode, rb),
    ensures
        match (ra, rb) {
            (Ok(p), Ok(q)) => p == q,
            (Err(_), Err(_)) => true,
            _ => false,
        },
{
    assert(a.take(5) =~= b.take(5));
    assert(a.skip(9) =~= b.skip(9));
}

/// The version and the body that were framed are what the header and the rest of
/// the file hold.
pub proof fn header_round_trip(format: u32, body: Seq<u8>)
    ensures
        has_magic(framed(format, body)),
        framed(format, body).len() >= HEAD,
        le_value(framed(format, body).subrange(5, 9)) == format,
        framed(format, body).skip(9) == body,
{
    let f = framed(format, body);
    assert(f.take(5) =~= magic());
    assert(f.subrange(5, 9) =~= le_bytes(format));
    assert(f.skip(9) =~= body);
    assert(le_value(le_bytes(format)) == format) by {
        let v = format as int;
        assert(v / 256 % 256 == v / 256 - 256 * (v / 65536)) by {
            assert(v / 256 / 256 == v / 65536);
        }
        assert(v / 65536 % 256 == v / 65536 - 256 * (v / 16777216)) by {
            assert(v / 65536 / 256 == v / 16777216);
        }
    }
}

/// May `same` say of each path of the list whether it is `path`?
pub open spec fn marks_path(list: Seq<Seq<char>>, same: Seq<bool>, path: Seq<char>) -> bool {
    &&& same.len() == list.len()
    &&& forall|k: int|
        0 <= k < list.len() ==> {
            &&& (#[trigger] list[k]) == path ==> same[k]
            &&& is_plain(list[k]) && is_plain(path) ==> same[k] == (list[k] == path)
        }
}

/// The paths of a list that are not marked.
pub open spec fn unmarked(list: Seq<Seq<char>>, same: Seq<bool>) -> Seq<Seq<char>>
    decreases list.len(),
{
    if list.len() == 0 {
        seq![]
    } else {
        let before = unmarked(list.drop_last(), same);
        if same[list.len() - 1] { before } else { before.push(list.last()) }
    }
}

/// At most the first `cap` of a list.
pub open spec fn capped(list: Seq<Seq<char>>, cap: nat) -> Seq<Seq<char>> {
    if list.len() > cap { list.take(cap as int) } else { list }
}

/// The recent list after `path` was used: it comes first, the marked paths go,
/// and the list is capped.
pub open spec fn recent_after(
    list: Seq<Seq<char>>,
    same: Seq<bool>,
    path: Seq<char>,
) -> Seq<Seq<char>> {
    capped(seq![path] + unmarked(list, same), 12)
}

/// Put a path to the front of the recent list. `same` says of each path of the
/// list whether it is the same.
pub fn push_marked(list: &Vec<String>, same: &Vec<bool>, path: &str) -> (r: Vec<String>)
    requires
        same@.len() == list@.len(),
    ensures
        texts_of(r@) == recent_after(texts_of(list@), same@, path@),
{
    let mut out: Vec<String> = vec![path.to_owned()];
    let ghost views = texts_of(list@);
    let mut k: usize = 0;
    assert(texts_of(out@) =~= seq![path@] + unmarked(views.take(0), same@));
    while k < list.len()
        invariant
            k <= list@.len(),
            same@.len() == list@.len(),
            views == texts_of(list@),
            texts_of(out@) == seq![path@] + unmarked(views.take(k as int), same@),
        decreases list@.len() - k,
    {
        let ghost before = out@;
        assert(views.take(k + 1).drop_last() =~= views.take(k as int));
        if !same[k] {
            out.push(list[k].as_str().to_owned());
            assert(texts_of(out@) =~= texts_of(before).push(views[k as int]));
        }
        assert(texts_of(out@) =~= seq![path@] + unmarked(views.take(k + 1), same@));
        k = k + 1;
    }
    assert(views.take(k as int) =~= views);
    let ghost full = out@;
    if out.len() > RECENT_CAP {
        out.truncate(RECENT_CAP);
    }
    assert(texts_of(out@) =~= capped(texts_of(full), 12));
    out
}

/// Put a path to the front of the recent list, and take out where it stood
/// before.
pub fn push_recent(list: &Vec<String>, path: &str) -> (r: Vec<String>)
    ensures
        exists|same: Seq<bool>| #[trigger]
            marks_path(texts_of(list@), same, path@) && texts_of(r@) == recent_after(
                texts_of(list@),
                same,
                path@,
            ),
{
    let mut same: Vec<bool> = Vec::new();
    let mut k: usize = 0;
    while k < list.len()
        invariant
            k <= list@.len(),
            same@.len() == k,
            forall|j: int|
                0 <= j < k ==> {
                    &&& (#[trigger] list@[j])@ == path@ ==> same@[j]
                    &&& is_plain(list@[j]@) && is_plain(path@) ==> same@[j] == (list@[j]@ == path@)
                },
        decreases list@.len() - k,
    {
        same.push(same_path(list[k].as_str(), path));
        k = k + 1;
    }
    assert(marks_path(texts_of(list@), same@, path@)) by {
        assert forall|j: int| 0 <= j < texts_of(list@).len() implies {
            &&& (#[trigger] texts_of(list@)[j]) == path@ ==> same@[j]
            &&& is_plain(texts_of(list@)[j]) && is_plain(path@) ==> same@[j] == (texts_of(list@)[j]
                == path@)
        } by {
            assert(texts_of(list@)[j] == list@[j]@);
        }
    }
    push_marked(list, &same, path)
}

/// What `serde_json::from_str` reads of a text as a list of texts; nothing where
/// the text is no such list.
pub uninterp spec fn texts_in_json(text: Seq<char>) -> Option<Seq<Seq<char>>>;

/// `serde_json::from_str`, for a list of texts: what it reads, if anything, goes
/// by the text alone.
#[verifier::external_body]
fn json_to_texts(text: &str) -> (r: Option<Vec<String>>)
    ensures
        match r {
            Some(list) => texts_in_json(text@) == Some(texts_of(list@)),
            None => texts_in_json(text@) is None,
        },
{
    serde_json::from_str::<Vec<String>>(text).ok()
}

/// What `serde_json::to_string_pretty` writes of a list of texts.
pub uninterp spec fn json_of_texts(list: Seq<Seq<char>>) -> Seq<char>;

/// `serde_json::to_string_pretty`, for a list of texts: it succeeds, what it
/// writes goes by the list alone, and `from_str` reads the same list of it.
#[verifier::external_body]
fn texts_to_json(list: &Vec<String>) -> (r: Option<String>)
    ensures
        r is Some,
        r matches Some(t) ==> t@ == json_of_texts(texts_of(list@)) && texts_in_json(t@) == Some(
            texts_of(list@),
        ),
{
    serde_json::to_string_pretty(list).ok()
}

/// What was read, or nothing.
pub fn list_or_nothing(read: Option<Vec<String>>) -> (r: Vec<String>)
    ensures
        texts_of(r@) == (match read {
            Some(list) => texts_of(list@),
            None => seq![],
        }),
{
    match read {
        Some(list) => list,
        None => {
            let none: Vec<String> = Vec::new();
            assert(texts_of(none@) =~= seq![]);
            none
        },
    }
}

/// The recent list that a file holds; none where the file is no list.
pub fn stored_recent(text: &str) -> (r: Vec<String>)
    ensures
        texts_of(r@) == (match texts_in_json(text@) {
            Some(list) => list,
            None => seq![],
        }),
{
    list_or_nothing(json_to_texts(text))
}

/// The file for a recent list. Reading it gives the list back.
pub fn recent_file(list: &Vec<String>) -> (r: Option<String>)
    ensures
        r is Some,
        r matches Some(t) ==> t@ == json_of_texts(texts_of(list@)) && texts_in_json(t@) == Some(
            texts_of(list@),
        ),
{
    texts_to_json(list)
}

/// The stored list as it is shown: the first of those that still exist.
pub open spec fn recent_shown(list: Seq<Seq<char>>, exists_flags: Seq<bool>) -> Seq<Seq<char>>
    decreases list.len(),
{
    if list.len() == 0 {
        seq![]
    } else {
        let before = recent_shown(list.drop_last(), exists_flags);
        if exists_flags[list.len() - 1] && before.len() < 12 {
            before.push(list.last())
        } else {
            before
        }
    }
}

/// The stored recent list, without the files that are gone and capped.
/// `exists_flags` says of each whether it exists.
pub fn prune_recent(list: &Vec<String>, exists_flags: &Vec<bool>) -> (r: Vec<String>)
    requires
        exists_flags@.len() == list@.len(),
    ensures
        texts_of(r@) == recent_shown(texts_of(list@), exists_flags@),
{
    let mut out: Vec<String> = Vec::new();
    let ghost views = texts_of(list@);
    let mut k: usize = 0;
    assert(texts_of(out@) =~= recent_shown(views.take(0), exists_flags@));
    while k < list.len()
        invariant
            k <= list@.len(),
            exists_flags@.len() == list@.len(),
            views == texts_of(list@),
            texts_of(out@) == recent_shown(views.take(k as int), exists_flags@),
            out@.len() == texts_of(out@).len(),
        decreases list@.len() - k,
    {
        let ghost before = out@;
        assert(views.take(k + 1).drop_last() =~= views.take(k as int));
        if exists_flags[k] && out.len() < RECENT_CAP {
            out.push(list[k].as_str().to_owned());
            assert(texts_of(out@) =~= texts_of(before).push(views[k as int]));
        }
        k = k + 1;
    }
    assert(views.take(k as int) =~= views);
    out
}

/// The path used last comes first.
pub proof fn recent_is_first(list: Seq<Seq<char>>, same: Seq<bool>, path: Seq<char>)
    ensures
        recent_after(list, same, path).len() > 0,
        recent_after(list, same, path)[0] == path,
        recent_after(list, same, path).len() <= 12,
{
}

/// No path is listed twice.
pub proof fn recent_has_no_duplicates(list: Seq<Seq<char>>, same: Seq<bool>, path: Seq<char>)
    requires
        list.no_duplicates(),
        marks_path(list, same, path),
    ensures
        recent_after(list, same, path).no_duplicates(),
{
    lemma_unmarked(list, same, path);
    let rest = unmarked(list, same);
    let full = seq![path] + rest;
    assert(full.no_duplicates()) by {
        assert forall|i: int, j: int|
            0 <= i < full.len() && 0 <= j < full.len() && i != j implies full[i] != full[j] by {
            if i > 0 && j > 0 {
                assert(full[i] == rest[i - 1]);
                assert(full[j] == rest[j - 1]);
            } else if i > 0 {
                assert(full[i] == rest[i - 1]);
                assert(rest.contains(full[i]));
            } else {
                assert(full[j] == rest[j - 1]);
                assert(rest.contains(full[j]));
            }
        }
    }
}

/// Of plain paths, only the path used leaves its old place: the others stay, in
/// their order.
pub proof fn recent_keeps_the_others(list: Seq<Seq<char>>, same: Seq<bool>, path: Seq<char>)
    requires
        marks_path(list, same, path),
        is_plain(path),
        forall|k: int| 0 <= k < list.len() ==> is_plain(#[trigger] list[k]),
    ensures
        recent_after(list, same, path) == capped(
            seq![path] + list.filter(|p: Seq<char>| p != path),
            12,
        ),
{
    lemma_unmarked_are_others(list, same, path);
}

proof fn lemma_unmarked_are_others(list: Seq<Seq<char>>, same: Seq<bool>, path: Seq<char>)
    requires
        same.len() >= list.len(),
        forall|k: int| 0 <= k < list.len() ==> same[k] == ((#[trigger] list[k]) == path),
    ensures
        unmarked(list, same) == list.filter(|p: Seq<char>| p != path),
    decreases list.len(),
{
    reveal(Seq::filter);
    if list.len() > 0 {
        let front = list.drop_last();
        assert forall|k: int| 0 <= k < front.len() implies same[k] == ((#[trigger] front[k])
            == path) by {
            assert(front[k] == list[k]);
        }
        lemma_unmarked_are_others(front, same, path);
        assert(list[list.len() - 1] == list.last());
    }
}

proof fn lemma_unmarked(list: Seq<Seq<char>>, same: Seq<bool>, path: Seq<char>)
    requires
        list.no_duplicates(),
        same.len() >= list.len(),
        forall|k: int| 0 <= k < list.len() && (#[trigger] list[k]) == path ==> same[k],
    ensures
        unmarked(list, same).no_duplicates(),
        forall|x: Seq<char>| #[trigger]
            unmarked(list, same).contains(x) ==> x != path && list.contains(x),
    decreases list.len(),
{
    if list.len() > 0 {
        let front = list.drop_last();
        assert(front.no_duplicates());
        assert forall|k: int| 0 <= k < front.len() && (#[trigger] front[k])
            == path implies same[k] by {
            assert(front[k] == list[k]);
        }
        lemma_unmarked(front, same, path);
        let kept = unmarked(front, same);
        let all = unmarked(list, same);
        assert(list[list.len() - 1] == list.last());
        assert forall|x: Seq<char>| #[trigger] all.contains(x) implies x != path && list.contains(
            x,
        ) by {
            let k = choose|k: int| 0 <= k < all.len() && all[k] == x;
            if k < kept.len() {
                assert(kept[k] == x);
                assert(kept.contains(x));
                assert(front.contains(x));
                let j = choose|j: int| 0 <= j < front.len() && front[j] == x;
                assert(list[j] == x);
            } else {
                assert(list[list.len() - 1] == x);
            }
        }
        assert forall|i: int, j: int|
            0 <= i < all.len() && 0 <= j < all.len() && i != j implies all[i] != all[j] by {
            if i < kept.len() && j < kept.len() {
            } else if i < kept.len() {
                assert(kept.contains(kept[i]));
                assert(front.contains(kept[i]));
                let m = choose|m: int| 0 <= m < front.len() && front[m] == kept[i];
                assert(list[m] != list[list.len() - 1]);
            } else if j < kept.len() {
                assert(kept.contains(kept[j]));
                assert(front.contains(kept[j]));
                let m = choose|m: int| 0 <= m < front.len() && front[m] == kept[j];
                assert(list[m] != list[list.len() - 1]);
            }
        }
    }
}

/// Is `j` the first of the files with the name of the file `i`?
pub open spec fn first_of_name(files: Seq<Seq<char>>, i: int, j: int) -> bool {
    &&& 0 <= j <= i
    &&& files[j] == files[i]
    &&& forall|k: int| 0 <= k < j ==> #[trigger] files[k] != files[i]
}

/// Which model each model shares its resource with: the first one that names
/// the same file.
pub fn intern_geometry_resources(files: &Vec<String>) -> (r: Vec<usize>)
    ensures
        r@.len() == files@.len(),
        forall|i: int|
            0 <= i < files@.len() ==> first_of_name(
                texts_of(files@),
                i,
                (#[trigger] r@[i]) as int,
            ),
{
    let ghost views = texts_of(files@);
    let mut out: Vec<usize> = Vec::new();
    let mut i: usize = 0;
    while i < files.len()
        invariant
            i <= files@.len(),
            views == texts_of(files@),
            out@.len() == i,
            forall|k: int| 0 <= k < i ==> first_of_name(views, k, (#[trigger] out@[k]) as int),
        decreases files@.len() - i,
    {
        let mut j: usize = 0;
        while j < i && !same_text(files[j].as_str(), files[i].as_str())
            invariant
                i < files@.len(),
                j <= i,
                views == texts_of(files@),
                forall|k: int| 0 <= k < j ==> #[trigger] views[k] != views[i as int],
            decreases i - j,
        {
            assert(views[j as int] == files@[j as int]@);
            j = j + 1;
        }
        assert(first_of_name(views, i as int, j as int));
        out.push(j);
        i = i + 1;
    }
    out
}

/// Models share a resource exactly where they name the same file.
pub proof fn sharing_goes_by_name(files: Seq<Seq<char>>, r: Seq<usize>, a: int, b: int)
    requires
        r.len() == files.len(),
        forall|i: int| 0 <= i < files.len() ==> first_of_name(files, i, (#[trigger] r[i]) as int),
        0 <= a < files.len(),
        0 <= b < files.len(),
    ensures
        r[a] == r[b] <==> files[a] == files[b],
{
    assert(first_of_name(files, a, r[a] as int));
    assert(first_of_name(files, b, r[b] as int));
    if files[a] == files[b] {
        if r[a] < r[b] {
            assert(files[r[a] as int] != files[b]);
        }
        if r[b] < r[a] {
            assert(files[r[b] as int] != files[a]);
        }
    }
}

/// Where models that name the same file hold the same bytes, sharing them changes
/// no model's bytes.
pub proof fn sharing_keeps_the_bytes(
    files: Seq<Seq<char>>,
    blobs: Seq<Seq<u8>>,
    r: Seq<usize>,
    i: int,
)
    requires
        r.len() == files.len() == blobs.len(),
        forall|k: int| 0 <= k < files.len() ==> first_of_name(files, k, (#[trigger] r[k]) as int),
        forall|a: int, b: int|
            0 <= a < files.len() && 0 <= b < files.len() && #[trigger] files[a] == #[trigger] files[b]
                ==> blobs[a] == blobs[b],
        0 <= i < files.len(),
    ensures
        r[i] < blobs.len(),
        blobs[r[i] as int] == blobs[i],
{
    assert(first_of_name(files, i, r[i] as int));
    assert(files[r[i] as int] == files[i]);
}

proof fn lemma_unmarked_has(list: Seq<Seq<char>>, same: Seq<bool>, p: Seq<char>)
    ensures
        unmarked(list, same).contains(p) <==> exists|k: int|
            0 <= k < list.len() && (#[trigger] list[k]) == p && !same[k],
    decreases list.len(),
{
    let all = unmarked(list, same);
    if list.len() > 0 {
        let front = list.drop_last();
        let before = unmarked(front, same);
        lemma_unmarked_has(front, same, p);
        if all.contains(p) {
            let k = choose|k: int| 0 <= k < all.len() && all[k] == p;
            if k < before.len() {
                assert(before[k] == p);
                let j = choose|j: int| 0 <= j < front.len() && (#[trigger] front[j]) == p && !same[j];
                assert(list[j] == p);
            } else {
                assert(list[list.len() - 1] == p);
            }
        }
        if exists|k: int| 0 <= k < list.len() && (#[trigger] list[k]) == p && !same[k] {
            let k = choose|k: int| 0 <= k < list.len() && (#[trigger] list[k]) == p && !same[k];
            if k < front.len() {
                assert(front[k] == p);
                let j = choose|j: int| 0 <= j < before.len() && before[j] == p;
                assert(all[j] == p);
            } else {
                assert(all[before.len() as int] == p);
            }
        }
    }
}

/// A path that was used before stays listed behind the new one, as long as there is room: of
/// a list of up to eleven none is lost but the marked ones, and a longer one is cut to
/// twelve.
pub proof fn recent_loses_nothing_with_room(
    list: Seq<Seq<char>>,
    same: Seq<bool>,
    path: Seq<char>,
    p: Seq<char>,
)
    requires
        same.len() == list.len(),
    ensures
        list.len() <= 11 ==> (recent_after(list, same, path).contains(p) <==> p == path
            || exists|k: int| 0 <= k < list.len() && (#[trigger] list[k]) == p && !same[k]),
        list.len() >= 12 && (forall|k: int| 0 <= k < same.len() ==> !#[trigger] same[k])
            ==> recent_after(list, same, path).len() == 12 && recent_after(list, same, path)[11]
            == list[10],
{
    let rest = unmarked(list, same);
    let full = seq![path] + rest;
    let after = recent_after(list, same, path);
    lemma_unmarked_has(list, same, p);
    lemma_unmarked_len(list, same);
    if list.len() <= 11 {
        assert(after == full);
        assert(full[0] == path);
        if rest.contains(p) {
            let k = choose|k: int| 0 <= k < rest.len() && rest[k] == p;
            assert(full[k + 1] == p);
        }
        if full.contains(p) && p != path {
            let k = choose|k: int| 0 <= k < full.len() && full[k] == p;
            assert(rest[k - 1] == p);
        }
    }
}

proof fn lemma_unmarked_len(list: Seq<Seq<char>>, same: Seq<bool>)
    requires
        same.len() >= list.len(),
    ensures
        unmarked(list, same).len() <= list.len(),
        (forall|k: int| 0 <= k < same.len() ==> !#[trigger] same[k]) ==> unmarked(list, same) == list,
    decreases list.len(),
{
    if list.len() > 0 {
        lemma_unmarked_len(list.drop_last(), same);
        assert(list.drop_last().push(list.last()) =~= list);
    } else {
        assert(unmarked(list, same) =~= list);
    }
}

/// The list that is shown holds files that exist, at most twelve, and of a stored list of up
/// to twelve all of those.
pub proof fn shown_recent_exist(list: Seq<Seq<char>>, exists_flags: Seq<bool>, p: Seq<char>)
    requires
        exists_flags.len() >= list.len(),
    ensures
        recent_shown(list, exists_flags).len() <= 12,
        recent_shown(list, exists_flags).len() <= list.len(),
        recent_shown(list, exists_flags).contains(p) ==> exists|k: int|
            0 <= k < list.len() && (#[trigger] list[k]) == p && exists_flags[k],
        list.len() <= 12 && (exists|k: int|
            0 <= k < list.len() && (#[trigger] list[k]) == p && exists_flags[k]) ==> recent_shown(
            list,
            exists_flags,
        ).contains(p),
    decreases list.len(),
{
    let all = recent_shown(list, exists_flags);
    if list.len() > 0 {
        let front = list.drop_last();
        let before = recent_shown(front, exists_flags);
        shown_recent_exist(front, exists_flags, p);
        if all.contains(p) {
            let k = choose|k: int| 0 <= k < all.len() && all[k] == p;
            if k < before.len() {
                assert(before[k] == p);
                let j = choose|j: int|
                    0 <= j < front.len() && (#[trigger] front[j]) == p && exists_flags[j];
                assert(list[j] == p);
            } else {
                assert(list[list.len() - 1] == p);
            }
        }
        if list.len() <= 12 && exists|k: int|
            0 <= k < list.len() && (#[trigger] list[k]) == p && exists_flags[k] {
            let k = choose|k: int|
                0 <= k < list.len() && (#[trigger] list[k]) == p && exists_flags[k];
            if k < front.len() {
                assert(front[k] == p);
                let j = choose|j: int| 0 <= j < before.len() && before[j] == p;
                assert(all[j] == p);
            } else {
                assert(all[before.len() as int] == p);
            }
        }
    }
}

} // verus!
