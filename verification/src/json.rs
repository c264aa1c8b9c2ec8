//! Verified JSON rendering and reading of the device status record.
//!
//! A record is rendered as one JSON object with the keys `value`,
//! `control` and `code`, in that order and with no whitespace. Inside a
//! rendered string the quote and the backslash are escaped with a
//! backslash; every other character is kept as it is. The reader accepts
//! exactly that shape, and reading a rendered record gives the record
//! back (`lemma_json_round_trip`).

use crate::record::DeviceStatusRecord;
use crate::record::RecordView;
use crate::text::push_char;
use crate::text::string_from_chars;
use crate::text::to_char_vec;
use vstd::prelude::*;
use vstd::string::StringExecFns;

verus! {

/// How one character is written inside a rendered JSON string.
pub open spec fn escape_char(c: char) -> Seq<char> {
    if c == '"' {
        seq!['\\', '"']
    } else if c == '\\' {
        seq!['\\', '\\']
    } else {
        seq![c]
    }
}

/// How a whole field is written inside a rendered JSON string.
pub open spec fn escape(s: Seq<char>) -> Seq<char>
    decreases s.len(),
{
    if s.len() == 0 {
        Seq::empty()
    } else {
        escape_char(s[0]) + escape(s.drop_first())
    }
}

/// The JSON document that renders the record `r`.
pub open spec fn record_json(r: RecordView) -> Seq<char> {
    "{\"value\":\""@ + escape(r.value) + "\""@ + ",\"control\":\""@ + escape(r.control) + "\""@
        + ",\"code\":\""@ + escape(r.code) + "\""@ + "}"@
}

/// `Some(i + lit.len())` when `s` carries `lit` at position `i`.
pub open spec fn expect(s: Seq<char>, i: int, lit: Seq<char>) -> Option<int> {
    if 0 <= i && i + lit.len() <= s.len() && s.subrange(i, i + lit.len()) == lit {
        Some(i + lit.len())
    } else {
        None
    }
}

/// Reads an escaped string starting at `i` up to and including its closing
/// quote; yields the unescaped text and the position after the quote.
pub open spec fn parse_jstr(s: Seq<char>, i: int) -> Option<(Seq<char>, int)>
    decreases s.len() - i,
{
    if i < 0 || i >= s.len() {
        None
    } else if s[i] == '"' {
        Some((Seq::empty(), i + 1))
    } else if s[i] == '\\' {
        if i + 1 < s.len() && (s[i + 1] == '"' || s[i + 1] == '\\') {
            match parse_jstr(s, i + 2) {
                Some((t, j)) => Some((seq![s[i + 1]] + t, j)),
                None => None,
            }
        } else {
            None
        }
    } else {
        match parse_jstr(s, i + 1) {
            Some((t, j)) => Some((seq![s[i]] + t, j)),
            None => None,
        }
    }
}

/// What `s` reads back to: the record whose rendering is exactly `s`, and
/// nothing otherwise.
pub open spec fn spec_from_json(s: Seq<char>) -> Option<RecordView> {
    match expect(s, 0, "{\"value\":\""@) {
        None => None,
        Some(i1) => match parse_jstr(s, i1) {
            None => None,
            Some((v, i2)) => match expect(s, i2, ",\"control\":\""@) {
                None => None,
                Some(i3) => match parse_jstr(s, i3) {
                    None => None,
                    Some((c, i4)) => match expect(s, i4, ",\"code\":\""@) {
                        None => None,
                        Some(i5) => match parse_jstr(s, i5) {
                            None => None,
                            Some((k, i6)) => if expect(s, i6, "}"@) == Some(s.len() as int) {
                                Some(RecordView { value: v, control: c, code: k })
                            } else {
                                None
                            },
                        },
                    },
                },
            },
        },
    }
}

/// Escaping a string one character longer appends that character's escape.
proof fn lemma_escape_snoc(s: Seq<char>, c: char)
    ensures
        escape(s.push(c)) == escape(s) + escape_char(c),
    decreases s.len(),
{
    if s.len() == 0 {
        assert(s.push(c)[0] == c);
        assert(s.push(c).drop_first() =~= Seq::<char>::empty());
        assert(escape(Seq::<char>::empty()) =~= Seq::<char>::empty());
        assert(s =~= Seq::<char>::empty());
        assert(escape(s.push(c)) == escape_char(c) + escape(s.push(c).drop_first()));
        assert(escape(s.push(c)) =~= escape(s) + escape_char(c));
    } else {
        assert(s.push(c)[0] == s[0]);
        assert(s.push(c).drop_first() =~= s.drop_first().push(c));
        lemma_escape_snoc(s.drop_first(), c);
        assert(escape(s.push(c)) =~= escape(s) + escape_char(c));
    }
}

/// Appends the escaped form of `s` to `out`.
fn append_escaped(out: &mut String, s: &str)
    ensures
        final(out)@ == old(out)@ + escape(s@),
{
    let chars = to_char_vec(s);
    proof {
        assert(s@.subrange(0, 0) =~= Seq::<char>::empty());
        assert(old(out)@ + escape(s@.subrange(0, 0)) =~= old(out)@);
    }
    let mut i: usize = 0;
    while i < chars.len()
        invariant
            i <= chars@.len(),
            chars@ == s@,
            out@ == old(out)@ + escape(s@.subrange(0, i as int)),
        decreases chars@.len() - i,
    {
        let c = chars[i];
        if c == '"' {
            push_char(out, '\\');
            push_char(out, '"');
        } else if c == '\\' {
            push_char(out, '\\');
            push_char(out, '\\');
        } else {
            push_char(out, c);
        }
        proof {
            lemma_escape_snoc(s@.subrange(0, i as int), s@[i as int]);
            assert(s@.subrange(0, i as int + 1) =~= s@.subrange(0, i as int).push(s@[i as int]));
            assert(out@ =~= old(out)@ + escape(s@.subrange(0, i as int + 1)));
        }
        i = i + 1;
    }
    proof {
        assert(s@.subrange(0, s@.len() as int) =~= s@);
    }
}

/// Renders the record as its JSON document.
pub fn record_to_json(r: &DeviceStatusRecord) -> (out: String)
    ensures
        out@ == record_json(r@),
{
    let mut out = String::new();
    out.append("{\"value\":\"");
    append_escaped(&mut out, r.value.as_str());
    out.append("\"");
    out.append(",\"control\":\"");
    append_escaped(&mut out, r.control.as_str());
    out.append("\"");
    out.append(",\"code\":\"");
    append_escaped(&mut out, r.code.as_str());
    out.append("\"");
    out.append("}");
    proof {
        assert(out@ =~= record_json(r@));
    }
    out
}

/// Checks for `lit` at position `i` of `chars`.
fn expect_lit(chars: &Vec<char>, i: usize, lit: &str) -> (r: Option<usize>)
    ensures
        match r {
            Some(j) => expect(chars@, i as int, lit@) == Some(j as int) && i <= j <= chars@.len(),
            None => expect(chars@, i as int, lit@) is None,
        },
{
    let l = to_char_vec(lit);
    let n = chars.len();
    if i > n || l.len() > n - i {
        return None;
    }
    let mut k: usize = 0;
    while k < l.len()
        invariant
            k <= l@.len(),
            l@ == lit@,
            n == chars@.len(),
            i + l@.len() <= n,
            forall|t: int| 0 <= t < k ==> chars@[i + t] == l@[t],
        decreases l@.len() - k,
    {
        if chars[i + k] != l[k] {
            proof {
                assert(chars@.subrange(i as int, i as int + lit@.len())[k as int] == chars@[i
                    + k]);
            }
            return None;
        }
        k = k + 1;
    }
    proof {
        assert(chars@.subrange(i as int, i as int + lit@.len()) =~= lit@);
    }
    Some(i + l.len())
}

/// Reads an escaped string starting at `i` of `chars`, as `parse_jstr`
/// says.
fn parse_string_at(chars: &Vec<char>, i: usize) -> (r: Option<(Vec<char>, usize)>)
    ensures
        match r {
            Some(p) => parse_jstr(chars@, i as int) == Some((p.0@, p.1 as int)) && i < p.1
                <= chars@.len(),
            None => parse_jstr(chars@, i as int) is None,
        },
    decreases chars@.len() - i,
{
    if i >= chars.len() {
        return None;
    }
    let c = chars[i];
    if c == '"' {
        let t: Vec<char> = Vec::new();
        assert(t@ + Seq::<char>::empty() =~= Seq::<char>::empty());
        return Some((t, i + 1));
    }
    if c == '\\' {
        if i + 1 < chars.len() {
            let d = chars[i + 1];
            if d == '"' || d == '\\' {
                match parse_string_at(chars, i + 2) {
                    Some((t, j)) => {
                        let mut t = t;
                        let ghost t0 = t@;
                        t.insert(0, d);
                        proof {
                            assert(t@ =~= seq![d] + t0);
                        }
                        return Some((t, j));
                    },
                    None => {
                        return None;
                    },
                }
            }
        }
        return None;
    }
    match parse_string_at(chars, i + 1) {
        Some((t, j)) => {
            let mut t = t;
            let ghost t0 = t@;
            t.insert(0, c);
            proof {
                assert(t@ =~= seq![c] + t0);
            }
            Some((t, j))
        },
        None => None,
    }
}

/// Reads a JSON document back into a record, exactly when
/// `spec_from_json` says one is there.
pub fn record_from_json(s: &str) -> (r: Option<DeviceStatusRecord>)
    ensures
        match r {
            Some(rec) => spec_from_json(s@) == Some(rec@),
            None => spec_from_json(s@) is None,
        },
{
    let chars = to_char_vec(s);
    let i1 = match expect_lit(&chars, 0, "{\"value\":\"") {
        Some(j) => j,
        None => {
            return None;
        },
    };
    let (v, i2) = match parse_string_at(&chars, i1) {
        Some(p) => p,
        None => {
            return None;
        },
    };
    let i3 = match expect_lit(&chars, i2, ",\"control\":\"") {
        Some(j) => j,
        None => {
            return None;
        },
    };
    let (c, i4) = match parse_string_at(&chars, i3) {
        Some(p) => p,
        None => {
            return None;
        },
    };
    let i5 = match expect_lit(&chars, i4, ",\"code\":\"") {
        Some(j) => j,
        None => {
            return None;
        },
    };
    let (k, i6) = match parse_string_at(&chars, i5) {
        Some(p) => p,
        None => {
            return None;
        },
    };
    match expect_lit(&chars, i6, "}") {
        Some(j) => {
            if j == chars.len() {
                Some(
                    DeviceStatusRecord::new(
                        string_from_chars(&v),
                        string_from_chars(&c),
                        string_from_chars(&k),
                    ),
                )
            } else {
                None
            }
        },
        None => None,
    }
}

/// Reading an escaped field followed by its closing quote gives the field
/// back.
proof fn lemma_parse_jstr_escape(s: Seq<char>, i: int, v: Seq<char>)
    requires
        0 <= i,
        i + escape(v).len() + 1 <= s.len(),
        s.subrange(i, i + escape(v).len() + 1) == escape(v).push('"'),
    ensures
        parse_jstr(s, i) == Some((v, i + escape(v).len() + 1)),
    decreases v.len(),
{
    let part = s.subrange(i, i + escape(v).len() + 1);
    if v.len() == 0 {
        assert(escape(v) =~= Seq::<char>::empty());
        assert(s[i] == part[0]);
        assert(s[i] == '"');
        assert(parse_jstr(s, i) == Some((Seq::<char>::empty(), i + 1)));
        assert(v =~= Seq::<char>::empty());
    } else {
        let c = v[0];
        let v1 = v.drop_first();
        assert(escape(v) == escape_char(c) + escape(v1));
        if c == '"' || c == '\\' {
            assert(escape_char(c) =~= seq!['\\', c]);
            assert(s[i] == part[0]);
            assert(s[i] == '\\');
            assert(s[i + 1] == part[1]);
            assert(s[i + 1] == c);
            assert forall|j: int| 0 <= j < escape(v1).len() + 1 implies s[i + 2 + j] == escape(
                v1,
            ).push('"')[j] by {
                assert(s[i + 2 + j] == part[2 + j]);
            }
            assert(s.subrange(i + 2, i + 2 + escape(v1).len() + 1) =~= escape(v1).push('"'));
            lemma_parse_jstr_escape(s, i + 2, v1);
            assert(parse_jstr(s, i) == Some((seq![c] + v1, i + 2 + escape(v1).len() + 1)));
            assert(seq![c] + v1 =~= v);
        } else {
            assert(escape_char(c) =~= seq![c]);
            assert(s[i] == part[0]);
            assert(s[i] == c);
            assert forall|j: int| 0 <= j < escape(v1).len() + 1 implies s[i + 1 + j] == escape(
                v1,
            ).push('"')[j] by {
                assert(s[i + 1 + j] == part[1 + j]);
            }
            assert(s.subrange(i + 1, i + 1 + escape(v1).len() + 1) =~= escape(v1).push('"'));
            lemma_parse_jstr_escape(s, i + 1, v1);
            assert(parse_jstr(s, i) == Some((seq![c] + v1, i + 1 + escape(v1).len() + 1)));
            assert(seq![c] + v1 =~= v);
        }
    }
}

/// Reading a rendered record gives the record back, whatever its fields
/// hold.
pub proof fn lemma_json_round_trip(r: RecordView)
    ensures
        spec_from_json(record_json(r)) == Some(r),
{
    reveal_strlit("\"");
    reveal_strlit("}");
    let s = record_json(r);
    let l1 = "{\"value\":\""@;
    let lq = "\""@;
    let lc = ",\"control\":\""@;
    let lk = ",\"code\":\""@;
    let lb = "}"@;
    let ev = escape(r.value);
    let ec = escape(r.control);
    let ek = escape(r.code);
    let i1 = l1.len() as int;
    let i2 = i1 + ev.len() + 1;
    let i3 = i2 + lc.len();
    let i4 = i3 + ec.len() + 1;
    let i5 = i4 + lk.len();
    let i6 = i5 + ek.len() + 1;
    assert(s.len() == i6 + 1);
    assert(s.subrange(0, i1) =~= l1);
    assert(expect(s, 0, l1) == Some(i1));
    assert(s.subrange(i1, i1 + ev.len() + 1) =~= ev.push('"'));
    lemma_parse_jstr_escape(s, i1, r.value);
    assert(s.subrange(i2, i2 + lc.len()) =~= lc);
    assert(expect(s, i2, lc) == Some(i3));
    assert(s.subrange(i3, i3 + ec.len() + 1) =~= ec.push('"'));
    lemma_parse_jstr_escape(s, i3, r.control);
    assert(s.subrange(i4, i4 + lk.len()) =~= lk);
    assert(expect(s, i4, lk) == Some(i5));
    assert(s.subrange(i5, i5 + ek.len() + 1) =~= ek.push('"'));
    lemma_parse_jstr_escape(s, i5, r.code);
    assert(s.subrange(i6, i6 + 1) =~= lb);
    assert(expect(s, i6, lb) == Some(s.len() as int));
    assert(spec_from_json(s) == Some(RecordView { value: r.value, control: r.control, code: r.code }));
    assert(RecordView { value: r.value, control: r.control, code: r.code } == r);
}

} // verus!
