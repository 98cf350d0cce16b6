use vstd::prelude::*;
use vstd::string::StringExecFns;
use vstd::utf8::{decode_utf8, valid_utf8};

verus! {

/// Relies on `std::str::from_utf8`: the bytes decode exactly when they are
/// valid UTF-8, and then to the characters they encode.
#[verifier::external_body]
fn decode_utf8_bytes(b: &[u8]) -> (r: Option<String>)
    ensures
        r is Some <==> valid_utf8(b@),
        r matches Some(s) ==> s@ == decode_utf8(b@),
{
    std::str::from_utf8(b).ok().map(|s| s.to_string())
}

/// Scanning `b` left to right: the non-empty NUL-terminated pieces so far, and
/// the piece still open at the end.
pub open spec fn scan(b: Seq<u8>) -> (Seq<Seq<u8>>, Seq<u8>)
    decreases b.len(),
{
    if b.len() == 0 {
        (Seq::empty(), Seq::empty())
    } else {
        let (done, cur) = scan(b.drop_last());
        if b.last() == 0 {
            (if cur.len() > 0 { done.push(cur) } else { done }, Seq::empty())
        } else {
            (done, cur.push(b.last()))
        }
    }
}

/// The non-empty pieces of `b` between NUL bytes, in order.
pub open spec fn fields(b: Seq<u8>) -> Seq<Seq<u8>> {
    let (done, cur) = scan(b);
    if cur.len() > 0 { done.push(cur) } else { done }
}

/// The text of one piece: its characters, or nothing when it is not UTF-8.
pub open spec fn field_text(f: Seq<u8>) -> Seq<char> {
    if valid_utf8(f) { decode_utf8(f) } else { Seq::empty() }
}

/// Texts joined with single spaces.
pub open spec fn joined(ts: Seq<Seq<char>>) -> Seq<char>
    decreases ts.len(),
{
    if ts.len() == 0 {
        Seq::empty()
    } else if ts.len() == 1 {
        ts[0]
    } else {
        joined(ts.drop_last()) + seq![' '] + ts.last()
    }
}

/// The command line that the raw argument block `b` holds: its pieces, each
/// decoded, joined by spaces; nothing when it holds no piece.
pub open spec fn cmdline_view(b: Seq<u8>) -> Option<Seq<char>> {
    if fields(b).len() == 0 {
        None
    } else {
        Some(joined(fields(b).map_values(|f: Seq<u8>| field_text(f))))
    }
}

fn field_string(f: &Vec<u8>) -> (r: String)
    ensures
        r@ == field_text(f@),
{
    match decode_utf8_bytes(f.as_slice()) {
        Some(s) => s,
        None => String::new(),
    }
}

/// Reads a NUL-separated argument block (the contents of a process's
/// `cmdline` file) as one line.
pub fn cmdline_from_bytes(content: &Vec<u8>) -> (r: Option<String>)
    ensures
        r matches Some(s) ==> cmdline_view(content@) == Some(s@),
        r is None ==> cmdline_view(content@) is None,
{
    let mut done: Vec<Vec<u8>> = Vec::new();
    let mut cur: Vec<u8> = Vec::new();
    let mut i: usize = 0;
    while i < content.len()
        invariant
            i <= content@.len(),
            scan(content@.take(i as int)) == (done@.map_values(|f: Vec<u8>| f@), cur@),
        decreases content@.len() - i,
    {
        let b = content[i];
        proof {
            assert(content@.take(i + 1).drop_last() =~= content@.take(i as int));
        }
        if b == 0 {
            if cur.len() > 0 {
                let ghost prev = done@;
                done.push(cur);
                assert(done@.map_values(|f: Vec<u8>| f@) =~= prev.map_values(|f: Vec<u8>| f@).push(cur@));
            }
            cur = Vec::new();
        } else {
            cur.push(b);
        }
        i = i + 1;
    }
    assert(content@.take(i as int) =~= content@);
    if cur.len() > 0 {
        let ghost prev = done@;
        done.push(cur);
        assert(done@.map_values(|f: Vec<u8>| f@) =~= prev.map_values(|f: Vec<u8>| f@).push(cur@));
    }
    assert(fields(content@) == done@.map_values(|f: Vec<u8>| f@));
    if done.len() == 0 {
        return None;
    }
    let ghost texts = fields(content@).map_values(|f: Seq<u8>| field_text(f));
    let mut line = field_string(&done[0]);
    let mut k: usize = 1;
    assert(texts.take(1) =~= seq![texts[0]]);
    while k < done.len()
        invariant
            1 <= k <= done@.len(),
            texts.len() == done@.len(),
            forall|j: int| 0 <= j < done@.len() ==> texts[j] == field_text(#[trigger] done@[j]@),
            line@ == joined(texts.take(k as int)),
        decreases done@.len() - k,
    {
        line.append(" ");
        let t = field_string(&done[k]);
        line.append(t.as_str());
        proof {
            reveal_strlit(" ");
            assert(texts.take(k + 1).drop_last() =~= texts.take(k as int));
        }
        k = k + 1;
    }
    assert(texts.take(k as int) =~= texts);
    Some(line)
}

/// The command line to report: the one read from `content` where it holds
/// one, else the process's name.
pub fn resolve_cmdline(content: &Option<Vec<u8>>, name: &String) -> (r: String)
    ensures
        r@ == (match content {
            Some(b) => match cmdline_view(b@) {
                Some(c) => c,
                None => name@,
            },
            None => name@,
        }),
{
    match content {
        Some(b) => match cmdline_from_bytes(b) {
            Some(c) => c,
            None => name.clone(),
        },
        None => name.clone(),
    }
}

} // verus!
