//! The persisted file format: one pretty-printed JSON document with exactly
//! three string fields — `public_key`, `private_key`, `name` — in that order.
//! The strings of a wallet go into the document literally, so a field with a
//! quote, a backslash or a control character — which JSON could only carry
//! escaped — is refused as a serialization failure. The parser accepts
//! exactly the documents the serializer writes.

use vstd::prelude::*;
use vstd::string::StrSliceExecFns;
use vstd::string::StringExecFns;
use crate::wallet::{PersistError, Wallet};

verus! {

/// A character the document can carry literally inside a quoted JSON string.
pub open spec fn plain_char(c: char) -> bool {
    c != '"' && c != '\\' && c as u32 >= 32
}

/// Every character of `s` can be carried literally.
pub open spec fn plain(s: Seq<char>) -> bool {
    forall|j: int| 0 <= j < s.len() ==> plain_char(#[trigger] s[j])
}

/// A wallet all three of whose fields the document can carry.
pub open spec fn wallet_plain(w: Wallet) -> bool {
    plain(w.public_key@) && plain(w.private_key@) && plain(w.name@)
}

/// The document's pieces, between the field values.
pub open spec fn lit_head() -> Seq<char> {
    "{\n  \"public_key\": \""@
}

pub open spec fn lit_mid1() -> Seq<char> {
    "\",\n  \"private_key\": \""@
}

pub open spec fn lit_mid2() -> Seq<char> {
    "\",\n  \"name\": \""@
}

pub open spec fn lit_tail() -> Seq<char> {
    "\"\n}"@
}

/// The whole document for the given field values.
pub open spec fn doc_of(public_key: Seq<char>, private_key: Seq<char>, name: Seq<char>) -> Seq<
    char,
> {
    lit_head() + public_key + lit_mid1() + private_key + lit_mid2() + name + lit_tail()
}

/// The index of the first quote in `s`, if any.
pub open spec fn scan_quote(s: Seq<char>) -> Option<int>
    decreases s.len(),
{
    if s.len() == 0 {
        None
    } else if s[0] == '"' {
        Some(0)
    } else {
        match scan_quote(s.drop_first()) {
            None => None,
            Some(i) => Some(i + 1),
        }
    }
}

/// What reading the document back yields: the parser accepts exactly the
/// serializer's output shape — head piece, value up to the next quote, the
/// two middle pieces likewise, and the tail piece closing the document — and
/// hands back the three field values.
pub open spec fn parse_doc(s: Seq<char>) -> Option<(Seq<char>, Seq<char>, Seq<char>)> {
    if !crate::prefix::is_prefix(lit_head(), s) {
        None
    } else {
        let t1 = s.skip(lit_head().len() as int);
        match scan_quote(t1) {
            None => None,
            Some(i1) => {
                let public_key = t1.take(i1);
                let r1 = t1.skip(i1);
                if !crate::prefix::is_prefix(lit_mid1(), r1) {
                    None
                } else {
                    let t2 = r1.skip(lit_mid1().len() as int);
                    match scan_quote(t2) {
                        None => None,
                        Some(i2) => {
                            let private_key = t2.take(i2);
                            let r2 = t2.skip(i2);
                            if !crate::prefix::is_prefix(lit_mid2(), r2) {
                                None
                            } else {
                                let t3 = r2.skip(lit_mid2().len() as int);
                                match scan_quote(t3) {
                                    None => None,
                                    Some(i3) => {
                                        let name = t3.take(i3);
                                        let r3 = t3.skip(i3);
                                        if r3 == lit_tail() {
                                            Some((public_key, private_key, name))
                                        } else {
                                            None
                                        }
                                    },
                                }
                            }
                        },
                    }
                }
            },
        }
    }
}

/// `scan_quote` finds the first quote: before it nothing is a quote, at it
/// there is one; `None` means there is none at all.
pub proof fn lemma_scan_quote_props(s: Seq<char>)
    ensures
        match scan_quote(s) {
            Some(i) => 0 <= i < s.len() && s[i] == '"' && (forall|j: int|
                0 <= j < i ==> s[j] != '"'),
            None => forall|j: int| 0 <= j < s.len() ==> s[j] != '"',
        },
    decreases s.len(),
{
    if s.len() == 0 {
    } else if s[0] == '"' {
    } else {
        let t = s.drop_first();
        lemma_scan_quote_props(t);
        match scan_quote(t) {
            Some(i) => {
                assert(s[i + 1] == t[i]);
                assert forall|j: int| 0 <= j < i + 1 implies s[j] != '"' by {
                    if j > 0 {
                        assert(s[j] == t[j - 1]);
                    }
                }
            },
            None => {
                assert forall|j: int| 0 <= j < s.len() implies s[j] != '"' by {
                    if j > 0 {
                        assert(s[j] == t[j - 1]);
                    }
                }
            },
        }
    }
}

/// On a quote-free sequence followed by one that opens with a quote,
/// `scan_quote` stops exactly at the seam.
pub proof fn lemma_scan_quote_concat(a: Seq<char>, b: Seq<char>)
    requires
        forall|j: int| 0 <= j < a.len() ==> a[j] != '"',
        b.len() > 0,
        b[0] == '"',
    ensures
        scan_quote(a + b) == Some(a.len() as int),
    decreases a.len(),
{
    let s = a + b;
    if a.len() == 0 {
        assert(s =~= b);
    } else {
        assert(s[0] == a[0]);
        assert(s.drop_first() =~= a.drop_first() + b);
        lemma_scan_quote_concat(a.drop_first(), b);
    }
}

/// Reading back what was written yields the written fields: the parser
/// reverses the serializer on every wallet the serializer accepts.
pub proof fn lemma_round_trip(public_key: Seq<char>, private_key: Seq<char>, name: Seq<char>)
    requires
        plain(public_key),
        plain(private_key),
        plain(name),
    ensures
        parse_doc(doc_of(public_key, private_key, name)) == Some(
            (public_key, private_key, name),
        ),
{
    reveal_strlit("\",\n  \"private_key\": \"");
    reveal_strlit("\",\n  \"name\": \"");
    reveal_strlit("\"\n}");
    let s = doc_of(public_key, private_key, name);
    let rest1 = public_key + lit_mid1() + private_key + lit_mid2() + name + lit_tail();
    assert(s =~= lit_head() + rest1);
    assert(crate::prefix::is_prefix(lit_head(), s)) by {
        assert(s.subrange(0, lit_head().len() as int) =~= lit_head());
    }
    let t1 = s.skip(lit_head().len() as int);
    assert(t1 =~= rest1);
    let r1full = lit_mid1() + private_key + lit_mid2() + name + lit_tail();
    assert(t1 =~= public_key + r1full);
    assert(r1full[0] == '"');
    lemma_scan_quote_concat(public_key, r1full);
    assert(scan_quote(t1) == Some(public_key.len() as int));
    assert(t1.take(public_key.len() as int) =~= public_key);
    let r1 = t1.skip(public_key.len() as int);
    assert(r1 =~= r1full);
    assert(crate::prefix::is_prefix(lit_mid1(), r1)) by {
        assert(r1.subrange(0, lit_mid1().len() as int) =~= lit_mid1());
    }
    let t2 = r1.skip(lit_mid1().len() as int);
    let r2full = lit_mid2() + name + lit_tail();
    assert(t2 =~= private_key + r2full);
    assert(r2full[0] == '"');
    lemma_scan_quote_concat(private_key, r2full);
    assert(scan_quote(t2) == Some(private_key.len() as int));
    assert(t2.take(private_key.len() as int) =~= private_key);
    let r2 = t2.skip(private_key.len() as int);
    assert(r2 =~= r2full);
    assert(crate::prefix::is_prefix(lit_mid2(), r2)) by {
        assert(r2.subrange(0, lit_mid2().len() as int) =~= lit_mid2());
    }
    let t3 = r2.skip(lit_mid2().len() as int);
    assert(t3 =~= name + lit_tail());
    assert(lit_tail()[0] == '"');
    lemma_scan_quote_concat(name, lit_tail());
    assert(scan_quote(t3) == Some(name.len() as int));
    assert(t3.take(name.len() as int) =~= name);
    assert(t3.skip(name.len() as int) =~= lit_tail());
}

/// Does every character of `s` fit the document literally?
pub fn is_plain_str(s: &str) -> (b: bool)
    ensures
        b == plain(s@),
{
    let n: usize = s.unicode_len();
    let mut i: usize = 0;
    while i < n
        invariant
            i <= n,
            n == s@.len(),
            forall|j: int| 0 <= j < i ==> plain_char(#[trigger] s@[j]),
        decreases n - i,
    {
        let c = s.get_char(i);
        if c == '"' || c == '\\' || (c as u32) < 32 {
            assert(!plain_char(s@[i as int]));
            return false;
        }
        i = i + 1;
    }
    true
}

/// Serialize a wallet to the document, field values carried literally; a
/// wallet with a field the document cannot carry is refused, and nothing
/// else ever fails.
pub fn wallet_to_json(w: &Wallet) -> (r: Result<String, PersistError>)
    ensures
        r matches Ok(s) ==> wallet_plain(*w) && s@ == doc_of(
            w.public_key@,
            w.private_key@,
            w.name@,
        ),
        r matches Err(e) ==> !wallet_plain(*w) && e == PersistError::Serialization,
{
    if !is_plain_str(w.public_key.as_str()) || !is_plain_str(w.private_key.as_str())
        || !is_plain_str(w.name.as_str()) {
        return Err(PersistError::Serialization);
    }
    let mut out = String::new();
    out.append("{\n  \"public_key\": \"");
    out.append(w.public_key.as_str());
    out.append("\",\n  \"private_key\": \"");
    out.append(w.private_key.as_str());
    out.append("\",\n  \"name\": \"");
    out.append(w.name.as_str());
    out.append("\"\n}");
    proof {
        assert(out@ =~= doc_of(w.public_key@, w.private_key@, w.name@));
    }
    Ok(out)
}

/// Does `s` continue with exactly `lit` at position `at`?
fn match_at(s: &str, at: usize, lit: &str) -> (b: bool)
    requires
        at <= s@.len(),
    ensures
        b == (at + lit@.len() <= s@.len() && s@.subrange(
            at as int,
            at as int + lit@.len() as int,
        ) == lit@),
{
    let n: usize = s.unicode_len();
    let llen: usize = lit.unicode_len();
    if llen > n - at {
        return false;
    }
    let mut j: usize = 0;
    while j < llen
        invariant
            j <= llen,
            llen == lit@.len(),
            n == s@.len(),
            at + llen <= n,
            forall|k: int| 0 <= k < j ==> s@[at + k] == lit@[k],
        decreases llen - j,
    {
        if s.get_char(at + j) != lit.get_char(j) {
            assert(s@.subrange(at as int, at as int + llen as int)[j as int] != lit@[j as int]);
            return false;
        }
        j = j + 1;
    }
    assert(s@.subrange(at as int, at as int + llen as int) =~= lit@);
    true
}

/// The first quote in `s` at or after `from`, if any.
fn find_quote(s: &str, from: usize) -> (r: Option<usize>)
    requires
        from <= s@.len(),
    ensures
        match r {
            Some(i) => from <= i < s@.len() && s@[i as int] == '"' && (forall|j: int|
                from <= j < i ==> s@[j] != '"'),
            None => forall|j: int| from <= j < s@.len() ==> s@[j] != '"',
        },
{
    let n: usize = s.unicode_len();
    let mut i: usize = from;
    while i < n
        invariant
            from <= i <= n,
            n == s@.len(),
            forall|j: int| from <= j < i ==> s@[j] != '"',
        decreases n - i,
    {
        if s.get_char(i) == '"' {
            return Some(i);
        }
        i = i + 1;
    }
    None
}

/// From the first-quote characterization of a stretch of `s`, pin down
/// `scan_quote` on the corresponding suffix.
proof fn lemma_scan_of_suffix(s: Seq<char>, from: int, r: Option<int>)
    requires
        0 <= from <= s.len(),
        match r {
            Some(i) => from <= i < s.len() && s[i] == '"' && (forall|j: int|
                from <= j < i ==> s[j] != '"'),
            None => forall|j: int| from <= j < s.len() ==> s[j] != '"',
        },
    ensures
        match r {
            Some(i) => scan_quote(s.skip(from)) == Some(i - from),
            None => scan_quote(s.skip(from)) is None,
        },
{
    let t = s.skip(from);
    lemma_scan_quote_props(t);
    match r {
        Some(i) => {
            match scan_quote(t) {
                Some(k) => {
                    assert(t[k] == s[from + k]);
                    if k < i - from {
                        assert(s[from + k] != '"');
                    }
                    if k > i - from {
                        assert(t[i - from] == s[i]);
                    }
                    assert(k == i - from);
                },
                None => {
                    assert(t[i - from] == s[i]);
                },
            }
        },
        None => {
            match scan_quote(t) {
                Some(k) => {
                    assert(t[k] == s[from + k]);
                },
                None => {},
            }
        },
    }
}

/// Read a document back into a wallet: exactly the serializer's outputs are
/// accepted, and the three fields come back as written.
pub fn wallet_from_json(s: &str) -> (r: Option<Wallet>)
    ensures
        match r {
            Some(w) => parse_doc(s@) == Some((w.public_key@, w.private_key@, w.name@)),
            None => parse_doc(s@) is None,
        },
{
    let n: usize = s.unicode_len();
    let lit1 = "{\n  \"public_key\": \"";
    let lit2 = "\",\n  \"private_key\": \"";
    let lit3 = "\",\n  \"name\": \"";
    let lit4 = "\"\n}";
    if !match_at(s, 0, lit1) {
        assert(!crate::prefix::is_prefix(lit_head(), s@));
        return None;
    }
    let p1: usize = lit1.unicode_len();
    let ghost t1 = s@.skip(p1 as int);
    proof {
        assert(crate::prefix::is_prefix(lit_head(), s@)) by {
            assert(s@.subrange(0, p1 as int) == lit_head());
        }
    }
    let q1 = match find_quote(s, p1) {
        Some(q) => q,
        None => {
            proof {
                lemma_scan_of_suffix(s@, p1 as int, None);
            }
            return None;
        },
    };
    proof {
        lemma_scan_of_suffix(s@, p1 as int, Some(q1 as int));
        assert(t1.take(q1 - p1) =~= s@.subrange(p1 as int, q1 as int));
        assert(t1.skip(q1 - p1) =~= s@.skip(q1 as int));
    }
    let public_key = s.substring_char(p1, q1);
    if !match_at(s, q1, lit2) {
        proof {
            assert(!crate::prefix::is_prefix(lit_mid1(), t1.skip(q1 - p1))) by {
                if crate::prefix::is_prefix(lit_mid1(), s@.skip(q1 as int)) {
                    assert(s@.skip(q1 as int).subrange(0, lit_mid1().len() as int) =~= s@.subrange(
                        q1 as int,
                        q1 as int + lit_mid1().len() as int,
                    ));
                }
            }
        }
        return None;
    }
    let p2: usize = q1 + lit2.unicode_len();
    let ghost t2 = s@.skip(p2 as int);
    proof {
        assert(crate::prefix::is_prefix(lit_mid1(), s@.skip(q1 as int))) by {
            assert(s@.skip(q1 as int).subrange(0, lit_mid1().len() as int) =~= s@.subrange(
                q1 as int,
                q1 as int + lit_mid1().len() as int,
            ));
        }
        assert(t1.skip(q1 - p1).skip(lit_mid1().len() as int) =~= t2);
    }
    let q2 = match find_quote(s, p2) {
        Some(q) => q,
        None => {
            proof {
                lemma_scan_of_suffix(s@, p2 as int, None);
            }
            return None;
        },
    };
    proof {
        lemma_scan_of_suffix(s@, p2 as int, Some(q2 as int));
        assert(t2.take(q2 - p2) =~= s@.subrange(p2 as int, q2 as int));
        assert(t2.skip(q2 - p2) =~= s@.skip(q2 as int));
    }
    let private_key = s.substring_char(p2, q2);
    if !match_at(s, q2, lit3) {
        proof {
            assert(!crate::prefix::is_prefix(lit_mid2(), t2.skip(q2 - p2))) by {
                if crate::prefix::is_prefix(lit_mid2(), s@.skip(q2 as int)) {
                    assert(s@.skip(q2 as int).subrange(0, lit_mid2().len() as int) =~= s@.subrange(
                        q2 as int,
                        q2 as int + lit_mid2().len() as int,
                    ));
                }
            }
        }
        return None;
    }
    let p3: usize = q2 + lit3.unicode_len();
    let ghost t3 = s@.skip(p3 as int);
    proof {
        assert(crate::prefix::is_prefix(lit_mid2(), s@.skip(q2 as int))) by {
            assert(s@.skip(q2 as int).subrange(0, lit_mid2().len() as int) =~= s@.subrange(
                q2 as int,
                q2 as int + lit_mid2().len() as int,
            ));
        }
        assert(t2.skip(q2 - p2).skip(lit_mid2().len() as int) =~= t3);
    }
    let q3 = match find_quote(s, p3) {
        Some(q) => q,
        None => {
            proof {
                lemma_scan_of_suffix(s@, p3 as int, None);
            }
            return None;
        },
    };
    proof {
        lemma_scan_of_suffix(s@, p3 as int, Some(q3 as int));
        assert(t3.take(q3 - p3) =~= s@.subrange(p3 as int, q3 as int));
        assert(t3.skip(q3 - p3) =~= s@.skip(q3 as int));
    }
    let name = s.substring_char(p3, q3);
    if !match_at(s, q3, lit4) {
        proof {
            if s@.skip(q3 as int) == lit_tail() {
                assert(s@.subrange(q3 as int, q3 as int + lit_tail().len() as int) =~= s@.skip(
                    q3 as int,
                ));
            }
        }
        return None;
    }
    let p4: usize = q3 + lit4.unicode_len();
    if p4 != n {
        proof {
            if s@.skip(q3 as int) == lit_tail() {
                assert(s@.skip(q3 as int).len() == lit_tail().len());
            }
        }
        return None;
    }
    proof {
        assert(s@.skip(q3 as int) =~= lit_tail()) by {
            assert(s@.subrange(q3 as int, q3 as int + lit_tail().len() as int) == lit_tail());
            assert(s@.skip(q3 as int).len() == lit_tail().len());
            assert(forall|k: int|
                0 <= k < lit_tail().len() ==> s@.skip(q3 as int)[k] == s@.subrange(
                    q3 as int,
                    q3 as int + lit_tail().len() as int,
                )[k]);
        }
    }
    Some(Wallet::new(name.to_owned(), public_key.to_owned(), private_key.to_owned()))
}

} // verus!
