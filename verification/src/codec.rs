//! Wire format for structured payloads: a flat object of string-valued,
//! fixed-order fields, written as `{"key":"value",...}` with `\` and `"`
//! escaped inside values.
//!
//! Both directions are verified against one spec-level grammar, and encoding
//! followed by parsing is proved to give the values back unchanged.

use vstd::prelude::*;
use crate::text::match_at;

verus! {

/// Escape of one value character.
pub open spec fn esc_char(c: char) -> Seq<char> {
    if c == '\\' || c == '"' {
        seq!['\\', c]
    } else {
        seq![c]
    }
}

/// Escape of a whole value.
pub open spec fn esc(s: Seq<char>) -> Seq<char>
    decreases s.len(),
{
    if s.len() == 0 {
        Seq::empty()
    } else {
        esc_char(s.first()) + esc(s.drop_first())
    }
}

pub proof fn lemma_esc_concat(a: Seq<char>, b: Seq<char>)
    ensures
        esc(a + b) == esc(a) + esc(b),
    decreases a.len(),
{
    if a.len() == 0 {
        assert(a + b =~= b);
        assert(esc(a) + esc(b) =~= esc(b));
    } else {
        assert((a + b).first() == a.first());
        assert((a + b).drop_first() =~= a.drop_first() + b);
        lemma_esc_concat(a.drop_first(), b);
        assert(esc(a + b) == esc_char(a.first()) + (esc(a.drop_first()) + esc(b)));
        assert(esc_char(a.first()) + (esc(a.drop_first()) + esc(b)) =~= (esc_char(a.first())
            + esc(a.drop_first())) + esc(b));
    }
}

/// Scan of an escaped value: consumes characters up to an unescaped `"`,
/// returning the unescaped value and the remainder after the quote.
pub open spec fn scan_escaped(s: Seq<char>) -> Option<(Seq<char>, Seq<char>)>
    decreases s.len(),
{
    if s.len() == 0 {
        None
    } else if s.first() == '"' {
        Some((Seq::empty(), s.drop_first()))
    } else if s.first() == '\\' {
        if s.len() < 2 {
            None
        } else {
            match scan_escaped(s.skip(2)) {
                Some((v, r)) => Some((seq![s[1]] + v, r)),
                None => None,
            }
        }
    } else {
        match scan_escaped(s.drop_first()) {
            Some((v, r)) => Some((seq![s.first()] + v, r)),
            None => None,
        }
    }
}

/// Scanning what `esc` wrote, up to its closing quote, recovers the value.
pub proof fn lemma_scan_esc(v: Seq<char>, rest: Seq<char>)
    ensures
        scan_escaped(esc(v) + seq!['"'] + rest) == Some((v, rest)),
    decreases v.len(),
{
    let s = esc(v) + seq!['"'] + rest;
    if v.len() == 0 {
        assert(s.first() == '"');
        assert(s.drop_first() =~= rest);
    } else {
        let c = v.first();
        lemma_scan_esc(v.drop_first(), rest);
        if c == '\\' || c == '"' {
            assert(s.first() == '\\');
            assert(s.len() >= 2);
            assert(s[1] == c);
            assert(s.skip(2) =~= esc(v.drop_first()) + seq!['"'] + rest);
            assert(seq![c] + v.drop_first() =~= v);
        } else {
            assert(s.first() == c);
            assert(s.drop_first() =~= esc(v.drop_first()) + seq!['"'] + rest);
            assert(seq![c] + v.drop_first() =~= v);
        }
    }
}

/// `"key":"` — what precedes a field's value.
pub open spec fn key_prefix(k: Seq<char>) -> Seq<char> {
    seq!['"'] + k + seq!['"', ':', '"']
}

/// One encoded field.
pub open spec fn spec_field(k: Seq<char>, v: Seq<char>) -> Seq<char> {
    key_prefix(k) + esc(v) + seq!['"']
}

/// Comma-separated encoded fields.
pub open spec fn spec_fields(ks: Seq<Seq<char>>, vs: Seq<Seq<char>>) -> Seq<char>
    decreases ks.len(),
{
    if ks.len() == 0 {
        Seq::empty()
    } else if ks.len() == 1 {
        spec_field(ks.first(), vs.first())
    } else {
        spec_field(ks.first(), vs.first()) + seq![','] + spec_fields(
            ks.drop_first(),
            vs.drop_first(),
        )
    }
}

/// A whole encoded object.
pub open spec fn spec_obj(ks: Seq<Seq<char>>, vs: Seq<Seq<char>>) -> Seq<char> {
    seq!['{'] + spec_fields(ks, vs) + seq!['}']
}

pub proof fn lemma_spec_fields_push(
    ks: Seq<Seq<char>>,
    vs: Seq<Seq<char>>,
    k: Seq<char>,
    v: Seq<char>,
)
    requires
        ks.len() == vs.len(),
        ks.len() >= 1,
    ensures
        spec_fields(ks.push(k), vs.push(v)) == spec_fields(ks, vs) + seq![','] + spec_field(k, v),
    decreases ks.len(),
{
    if ks.len() == 1 {
        assert(ks.push(k).drop_first() =~= seq![k]);
        assert(vs.push(v).drop_first() =~= seq![v]);
        assert(spec_fields(seq![k], seq![v]) == spec_field(k, v));
        assert(spec_fields(ks.push(k), vs.push(v)) == spec_field(ks.first(), vs.first()) + seq![
            ',',
        ] + spec_field(k, v));
    } else {
        assert(ks.push(k).drop_first() =~= ks.drop_first().push(k));
        assert(vs.push(v).drop_first() =~= vs.drop_first().push(v));
        lemma_spec_fields_push(ks.drop_first(), vs.drop_first(), k, v);
        assert(spec_field(ks.first(), vs.first()) + seq![','] + (spec_fields(
            ks.drop_first(),
            vs.drop_first(),
        ) + seq![','] + spec_field(k, v)) =~= (spec_field(ks.first(), vs.first()) + seq![',']
            + spec_fields(ks.drop_first(), vs.drop_first())) + seq![','] + spec_field(k, v));
    }
}

/// Parse of a comma-separated field list against expected keys, returning
/// the values and the remainder.
pub open spec fn parse_fields(s: Seq<char>, ks: Seq<Seq<char>>) -> Option<
    (Seq<Seq<char>>, Seq<char>),
>
    decreases ks.len(),
{
    if ks.len() == 0 {
        Some((Seq::empty(), s))
    } else {
        let kp = key_prefix(ks.first());
        if s.len() >= kp.len() && s.subrange(0, kp.len() as int) == kp {
            match scan_escaped(s.skip(kp.len() as int)) {
                Some((v, rem)) => {
                    if ks.len() == 1 {
                        Some((seq![v], rem))
                    } else if rem.len() >= 1 && rem.first() == ',' {
                        match parse_fields(rem.drop_first(), ks.drop_first()) {
                            Some((vs, rem2)) => Some((seq![v] + vs, rem2)),
                            None => None,
                        }
                    } else {
                        None
                    }
                },
                None => None,
            }
        } else {
            None
        }
    }
}

/// Parse of a whole object: `{`, the fields, `}`, end of input.
pub open spec fn spec_parse_obj(s: Seq<char>, ks: Seq<Seq<char>>) -> Option<Seq<Seq<char>>> {
    if s.len() >= 1 && s.first() == '{' {
        match parse_fields(s.drop_first(), ks) {
            Some((vs, rem)) => if rem == seq!['}'] {
                Some(vs)
            } else {
                None
            },
            None => None,
        }
    } else {
        None
    }
}

pub proof fn lemma_parse_fields_len(s: Seq<char>, ks: Seq<Seq<char>>)
    ensures
        parse_fields(s, ks) matches Some(p) ==> p.0.len() == ks.len(),
    decreases ks.len(),
{
    if ks.len() > 1 {
        let kp = key_prefix(ks.first());
        if s.len() >= kp.len() && s.subrange(0, kp.len() as int) == kp {
            match scan_escaped(s.skip(kp.len() as int)) {
                Some((v, rem)) => {
                    if rem.len() >= 1 && rem.first() == ',' {
                        lemma_parse_fields_len(rem.drop_first(), ks.drop_first());
                    }
                },
                None => {},
            }
        }
    }
}

/// Parsing what `spec_fields` wrote, against the same keys, recovers the
/// values and leaves the trailing remainder untouched.
pub proof fn lemma_parse_spec_fields(ks: Seq<Seq<char>>, vs: Seq<Seq<char>>, rest: Seq<char>)
    requires
        ks.len() == vs.len(),
        ks.len() >= 1,
    ensures
        parse_fields(spec_fields(ks, vs) + rest, ks) == Some((vs, rest)),
    decreases ks.len(),
{
    let s = spec_fields(ks, vs) + rest;
    let kp = key_prefix(ks.first());
    if ks.len() == 1 {
        assert(s =~= kp + (esc(vs.first()) + seq!['"'] + rest));
        assert(s.subrange(0, kp.len() as int) =~= kp);
        assert(s.skip(kp.len() as int) =~= esc(vs.first()) + seq!['"'] + rest);
        lemma_scan_esc(vs.first(), rest);
        assert(seq![vs.first()] =~= vs);
    } else {
        let tailfields = spec_fields(ks.drop_first(), vs.drop_first());
        let after = seq![','] + tailfields + rest;
        assert(s =~= kp + (esc(vs.first()) + seq!['"'] + after));
        assert(s.subrange(0, kp.len() as int) =~= kp);
        assert(s.skip(kp.len() as int) =~= esc(vs.first()) + seq!['"'] + after);
        lemma_scan_esc(vs.first(), after);
        assert(after.first() == ',');
        assert(after.drop_first() =~= tailfields + rest);
        lemma_parse_spec_fields(ks.drop_first(), vs.drop_first(), rest);
        assert(seq![vs.first()] + vs.drop_first() =~= vs);
    }
}

/// Parsing what `spec_obj` wrote, against the same keys, recovers the values.
pub proof fn lemma_parse_spec_obj(ks: Seq<Seq<char>>, vs: Seq<Seq<char>>)
    requires
        ks.len() == vs.len(),
        ks.len() >= 1,
    ensures
        spec_parse_obj(spec_obj(ks, vs), ks) == Some(vs),
{
    let s = spec_obj(ks, vs);
    assert(s.first() == '{');
    assert(s.drop_first() =~= spec_fields(ks, vs) + seq!['}']);
    lemma_parse_spec_fields(ks, vs, seq!['}']);
}

/// Append `esc(v@)` to `out`.
pub fn append_escaped(out: &mut String, v: &str)
    ensures
        final(out)@ == old(out)@ + esc(v@),
{
    let n = v.unicode_len();
    let mut i: usize = 0;
    proof {
        assert(v@.subrange(0, 0) =~= Seq::<char>::empty());
        assert(esc(Seq::<char>::empty()) =~= Seq::<char>::empty());
        assert(out@ =~= old(out)@ + esc(v@.subrange(0, 0)));
        reveal_strlit("\\");
    }
    while i < n
        invariant
            i <= n,
            n == v@.len(),
            out@ == old(out)@ + esc(v@.subrange(0, i as int)),
        decreases n - i,
    {
        let c = v.get_char(i);
        if c == '\\' || c == '"' {
            proof {
                reveal_strlit("\\");
            }
            out.append("\\");
        }
        let piece = v.substring_char(i, i + 1);
        out.append(piece);
        proof {
            let pre = v@.subrange(0, i as int);
            let ext = v@.subrange(0, i as int + 1);
            assert(ext =~= pre + seq![v@[i as int]]);
            lemma_esc_concat(pre, seq![v@[i as int]]);
            assert(seq![v@[i as int]].first() == v@[i as int]);
            assert(seq![v@[i as int]].drop_first() =~= Seq::<char>::empty());
            assert(esc(Seq::<char>::empty()) == Seq::<char>::empty());
            assert(esc(seq![v@[i as int]]) == esc_char(v@[i as int]) + Seq::<char>::empty());
            assert(esc_char(v@[i as int]) + Seq::<char>::empty() =~= esc_char(v@[i as int]));
            assert(piece@ =~= seq![v@[i as int]]);
            assert(out@ =~= old(out)@ + esc(ext));
        }
        i += 1;
    }
    proof {
        assert(v@.subrange(0, n as int) =~= v@);
    }
}

/// Encode the given keys and values as one object.
pub fn encode_obj(keys: &[&str], vals: &[&str]) -> (r: String)
    requires
        keys@.len() == vals@.len(),
        keys@.len() >= 1,
    ensures
        r@ == spec_obj(keys.deep_view(), vals.deep_view()),
{
    proof {
        reveal_strlit("{");
        reveal_strlit("}");
        reveal_strlit(",");
        reveal_strlit("\"");
        reveal_strlit("\":\"");
    }
    let mut out = String::from_str("{");
    let n = keys.len();
    let mut i: usize = 0;
    while i < n
        invariant
            1 <= n,
            i <= n,
            n == keys@.len(),
            n == vals@.len(),
            "{"@ =~= seq!['{'],
            "}"@ =~= seq!['}'],
            ","@ =~= seq![','],
            "\""@ =~= seq!['"'],
            "\":\""@ =~= seq!['"', ':', '"'],
            i == 0 ==> out@ == seq!['{'],
            i >= 1 ==> out@ == seq!['{'] + spec_fields(
                keys.deep_view().subrange(0, i as int),
                vals.deep_view().subrange(0, i as int),
            ),
        decreases n - i,
    {
        if i > 0 {
            out.append(",");
        }
        out.append("\"");
        out.append(keys[i]);
        out.append("\":\"");
        append_escaped(&mut out, vals[i]);
        out.append("\"");
        proof {
            let ksv = keys.deep_view();
            let vsv = vals.deep_view();
            let k = ksv[i as int];
            let v = vsv[i as int];
            assert(keys@[i as int]@ == k);
            assert(vals@[i as int]@ == v);
            if i == 0 {
                assert(out@ =~= seq!['{'] + (seq!['"'] + k + seq!['"', ':', '"'] + esc(v) + seq![
                    '"',
                ]));
                assert(seq!['"'] + k + seq!['"', ':', '"'] + esc(v) + seq!['"'] =~= spec_field(
                    k,
                    v,
                ));
                assert(ksv.subrange(0, 1) =~= seq![k]);
                assert(vsv.subrange(0, 1) =~= seq![v]);
                assert(spec_fields(seq![k], seq![v]) == spec_field(k, v));
            } else {
                let kpre = ksv.subrange(0, i as int);
                let vpre = vsv.subrange(0, i as int);
                assert(out@ =~= (seq!['{'] + spec_fields(kpre, vpre)) + (seq![','] + (seq!['"'] + k
                    + seq!['"', ':', '"'] + esc(v) + seq!['"'])));
                assert(seq!['"'] + k + seq!['"', ':', '"'] + esc(v) + seq!['"'] =~= spec_field(
                    k,
                    v,
                ));
                lemma_spec_fields_push(kpre, vpre, k, v);
                assert(ksv.subrange(0, i as int + 1) =~= kpre.push(k));
                assert(vsv.subrange(0, i as int + 1) =~= vpre.push(v));
                assert(out@ =~= seq!['{'] + spec_fields(
                    ksv.subrange(0, i as int + 1),
                    vsv.subrange(0, i as int + 1),
                ));
            }
        }
        i += 1;
    }
    out.append("}");
    proof {
        assert(keys.deep_view().subrange(0, n as int) =~= keys.deep_view());
        assert(vals.deep_view().subrange(0, n as int) =~= vals.deep_view());
        assert(out@ =~= spec_obj(keys.deep_view(), vals.deep_view()));
    }
    out
}

/// Comma-joined pre-encoded items.
pub open spec fn spec_joined(items: Seq<Seq<char>>) -> Seq<char>
    decreases items.len(),
{
    if items.len() == 0 {
        Seq::empty()
    } else if items.len() == 1 {
        items.first()
    } else {
        items.first() + seq![','] + spec_joined(items.drop_first())
    }
}

pub proof fn lemma_spec_joined_push(items: Seq<Seq<char>>, x: Seq<char>)
    requires
        items.len() >= 1,
    ensures
        spec_joined(items.push(x)) == spec_joined(items) + seq![','] + x,
    decreases items.len(),
{
    if items.len() == 1 {
        assert(items.push(x).drop_first() =~= seq![x]);
        assert(spec_joined(seq![x]) == x);
    } else {
        assert(items.push(x).drop_first() =~= items.drop_first().push(x));
        lemma_spec_joined_push(items.drop_first(), x);
        assert(items.first() + seq![','] + (spec_joined(items.drop_first()) + seq![','] + x) =~= (
        items.first() + seq![','] + spec_joined(items.drop_first())) + seq![','] + x);
    }
}

/// A whole encoded array of pre-encoded items.
pub open spec fn spec_json_array(items: Seq<Seq<char>>) -> Seq<char> {
    seq!['['] + spec_joined(items) + seq![']']
}

/// Encode pre-encoded items as one array.
pub fn encode_array(items: &Vec<String>) -> (r: String)
    ensures
        r@ == spec_json_array(items.deep_view()),
{
    proof {
        reveal_strlit("[");
        reveal_strlit("]");
        reveal_strlit(",");
    }
    let mut out = String::from_str("[");
    let n = items.len();
    let mut i: usize = 0;
    proof {
        assert(items.deep_view().subrange(0, 0) =~= Seq::<Seq<char>>::empty());
        assert(out@ =~= seq!['['] + spec_joined(items.deep_view().subrange(0, 0)));
    }
    while i < n
        invariant
            i <= n,
            n == items@.len(),
            "["@ =~= seq!['['],
            "]"@ =~= seq![']'],
            ","@ =~= seq![','],
            out@ == seq!['['] + spec_joined(items.deep_view().subrange(0, i as int)),
        decreases n - i,
    {
        if i > 0 {
            out.append(",");
        }
        out.append(items[i].as_str());
        proof {
            let dv = items.deep_view();
            let pre = dv.subrange(0, i as int);
            assert(dv[i as int] == items@[i as int]@);
            if i == 0 {
                assert(pre.len() == 0);
                assert(spec_joined(pre) == Seq::<char>::empty());
                assert(dv.subrange(0, 1) =~= seq![dv[0]]);
                assert(spec_joined(seq![dv[0]]) == dv[0]);
                assert(out@ =~= seq!['['] + spec_joined(dv.subrange(0, 1)));
            } else {
                lemma_spec_joined_push(pre, dv[i as int]);
                assert(dv.subrange(0, i as int + 1) =~= pre.push(dv[i as int]));
                assert(out@ =~= seq!['['] + spec_joined(dv.subrange(0, i as int + 1)));
            }
        }
        i += 1;
    }
    out.append("]");
    proof {
        assert(items.deep_view().subrange(0, n as int) =~= items.deep_view());
        assert(out@ =~= spec_json_array(items.deep_view()));
    }
    out
}

/// Scan an escaped value in `s` starting at `i`; on success return the value
/// and the position after the closing quote.
fn scan_value(s: &str, i: usize) -> (r: Option<(String, usize)>)
    requires
        i <= s@.len(),
    ensures
        match r {
            Some(p) => i <= p.1 <= s@.len() && scan_escaped(s@.skip(i as int)) == Some(
                (p.0@, s@.skip(p.1 as int)),
            ),
            None => scan_escaped(s@.skip(i as int)) is None,
        },
{
    let n = s.unicode_len();
    let mut out = String::new();
    let mut j = i;
    proof {
        assert(out@ + Seq::<char>::empty() =~= out@);
        match scan_escaped(s@.skip(i as int)) {
            Some((v, rem)) => {
                assert(out@ + v =~= v);
            },
            None => {},
        }
    }
    loop
        invariant
            i <= j <= n,
            n == s@.len(),
            ({
                let whole = scan_escaped(s@.skip(i as int));
                match scan_escaped(s@.skip(j as int)) {
                    Some((v, rem)) => whole == Some((out@ + v, rem)),
                    None => whole is None,
                }
            }),
        decreases n - j,
    {
        if j >= n {
            proof {
                assert(s@.skip(j as int).len() == 0);
            }
            return None;
        }
        let c = s.get_char(j);
        proof {
            assert(s@.skip(j as int).first() == s@[j as int]);
        }
        if c == '"' {
            proof {
                assert(s@.skip(j as int).drop_first() =~= s@.skip(j as int + 1));
                assert(out@ + Seq::<char>::empty() =~= out@);
            }
            return Some((out, j + 1));
        }
        if c == '\\' {
            if j + 1 >= n {
                proof {
                    assert(s@.skip(j as int).len() < 2);
                }
                return None;
            }
            let ghost out0 = out@;
            let piece = s.substring_char(j + 1, j + 2);
            out.append(piece);
            proof {
                let suf = s@.skip(j as int);
                let x = s@[j as int + 1];
                assert(suf.len() >= 2);
                assert(suf[1] == x);
                assert(suf.skip(2) =~= s@.skip(j as int + 2));
                assert(piece@ =~= seq![x]);
                assert(out@ == out0 + seq![x]);
                match scan_escaped(s@.skip(j as int + 2)) {
                    Some((v, rem)) => {
                        assert(out0 + (seq![x] + v) =~= out@ + v);
                    },
                    None => {},
                }
            }
            j = j + 2;
        } else {
            let ghost out0 = out@;
            let piece = s.substring_char(j, j + 1);
            out.append(piece);
            proof {
                let suf = s@.skip(j as int);
                let x = s@[j as int];
                assert(suf.drop_first() =~= s@.skip(j as int + 1));
                assert(piece@ =~= seq![x]);
                assert(out@ == out0 + seq![x]);
                match scan_escaped(s@.skip(j as int + 1)) {
                    Some((v, rem)) => {
                        assert(out0 + (seq![x] + v) =~= out@ + v);
                    },
                    None => {},
                }
            }
            j = j + 1;
        }
    }
}

/// Parse the fields for `keys[kidx..]` in `s` starting at `i`; on success
/// return the values and the position of the remainder.
fn parse_fields_from(s: &str, i: usize, keys: &[&str], kidx: usize) -> (r: Option<
    (Vec<String>, usize),
>)
    requires
        i <= s@.len(),
        kidx < keys@.len(),
    ensures
        match r {
            Some(p) => {
                &&& i <= p.1 <= s@.len()
                &&& p.0@.len() == keys@.len() - kidx
                &&& parse_fields(s@.skip(i as int), keys.deep_view().skip(kidx as int)) == Some(
                    (p.0.deep_view(), s@.skip(p.1 as int)),
                )
            },
            None => parse_fields(s@.skip(i as int), keys.deep_view().skip(kidx as int)) is None,
        },
    decreases keys@.len() - kidx,
{
    let ghost ks = keys.deep_view().skip(kidx as int);
    let n = s.unicode_len();
    let mut kp = String::from_str("\"");
    kp.append(keys[kidx]);
    kp.append("\":\"");
    proof {
        reveal_strlit("\"");
        reveal_strlit("\":\"");
        assert(ks.first() == keys.deep_view()[kidx as int]);
        assert(keys@[kidx as int]@ == keys.deep_view()[kidx as int]);
        assert(kp@ =~= key_prefix(ks.first()));
    }
    if !match_at(s, i, kp.as_str()) {
        proof {
            assert(s@.skip(i as int).len() == s@.len() - i);
            if s@.skip(i as int).len() >= kp@.len() {
                assert(s@.skip(i as int).subrange(0, kp@.len() as int) =~= s@.subrange(
                    i as int,
                    i + kp@.len(),
                ));
            }
        }
        return None;
    }
    proof {
        assert(i + kp@.len() <= n);
    }
    let i2 = i + kp.as_str().unicode_len();
    proof {
        assert(s@.skip(i as int).subrange(0, kp@.len() as int) =~= s@.subrange(
            i as int,
            i + kp@.len(),
        ));
        assert(s@.skip(i as int).skip(kp@.len() as int) =~= s@.skip(i2 as int));
    }
    let (v, j) = match scan_value(s, i2) {
        Some(p) => p,
        None => {
            return None;
        },
    };
    if kidx + 1 == keys.len() {
        let mut vs: Vec<String> = Vec::new();
        vs.push(v);
        proof {
            assert(ks.len() == 1);
            assert(vs.deep_view() =~= seq![vs@[0]@]);
        }
        return Some((vs, j));
    }
    proof {
        assert(ks.len() > 1);
    }
    if j >= s.unicode_len() {
        proof {
            assert(s@.skip(j as int).len() == 0);
        }
        return None;
    }
    let c = s.get_char(j);
    proof {
        assert(s@.skip(j as int).first() == s@[j as int]);
    }
    if c != ',' {
        return None;
    }
    proof {
        assert(s@.skip(j as int).drop_first() =~= s@.skip(j as int + 1));
        assert(ks.drop_first() =~= keys.deep_view().skip(kidx as int + 1));
    }
    match parse_fields_from(s, j + 1, keys, kidx + 1) {
        Some((mut vs, j2)) => {
            let ghost tailvs = vs.deep_view();
            vs.insert(0, v);
            proof {
                assert(vs.deep_view() =~= seq![v@] + tailvs);
            }
            Some((vs, j2))
        },
        None => None,
    }
}

/// Parse one object against the given keys. Returns the field values
/// exactly when the whole input is the encoding of some values for those
/// keys; returns nothing otherwise.
pub fn parse_obj(s: &str, keys: &[&str]) -> (r: Option<Vec<String>>)
    requires
        keys@.len() >= 1,
    ensures
        match r {
            Some(vs) => {
                &&& vs@.len() == keys@.len()
                &&& spec_parse_obj(s@, keys.deep_view()) == Some(vs.deep_view())
            },
            None => spec_parse_obj(s@, keys.deep_view()) is None,
        },
{
    let n = s.unicode_len();
    if n == 0 {
        return None;
    }
    let c = s.get_char(0);
    proof {
        assert(s@.first() == s@[0]);
    }
    if c != '{' {
        return None;
    }
    proof {
        assert(s@.drop_first() =~= s@.skip(1));
        assert(keys.deep_view().skip(0) =~= keys.deep_view());
    }
    let (vs, j) = match parse_fields_from(s, 1, keys, 0) {
        Some(p) => p,
        None => {
            return None;
        },
    };
    let ghost rem = s@.skip(j as int);
    if n - j != 1 {
        proof {
            assert(rem.len() != 1);
            assert(rem != seq!['}']);
        }
        return None;
    }
    let cc = s.get_char(j);
    proof {
        assert(rem.first() == s@[j as int]);
    }
    if cc != '}' {
        proof {
            assert(rem != seq!['}']);
        }
        return None;
    }
    proof {
        assert(rem =~= seq!['}']);
    }
    Some(vs)
}

} // verus!
