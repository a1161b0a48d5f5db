//! The version gate: a descriptor may demand a minimum tool version.
use vstd::prelude::*;
use vstd::string::*;

verus! {

/// What `config.min_version` holds in a descriptor's text, as read by the
/// TOML decoder: nothing where the text does not decode or the key is
/// absent or not a string.
pub uninterp spec fn toml_min_version(text: Seq<char>) -> Option<Seq<char>>;

/// Relies on `toml::from_str` to decode the text into a `toml::Value`, and on
/// `Value::get` and `Value::as_str` to read the string at `config.min_version`.
/// A decoding error gives `None`.
#[verifier::external_body]
fn declared_min_version(text: &str) -> (r: Option<String>)
    ensures
        match r {
            Some(s) => toml_min_version(text@) == Some(s@),
            None => toml_min_version(text@).is_none(),
        },
{
    let value: toml::Value = match toml::from_str(text) {
        Ok(value) => value,
        Err(_) => return None,
    };
    let min_version = value.get("config")?.get("min_version")?;
    min_version.as_str().map(String::from)
}

pub open spec fn is_digit(c: char) -> bool {
    '0' <= c && c <= '9'
}

/// The number that a run of decimal digits denotes.
pub open spec fn digits_value(s: Seq<char>) -> nat
    decreases s.len(),
{
    if s.len() == 0 {
        0
    } else {
        digits_value(s.drop_last()) * 10 + (s.last() as nat - '0' as nat) as nat
    }
}

/// The parts of `s` between dots.
pub open spec fn components(s: Seq<char>) -> Seq<Seq<char>>
    decreases s.len(),
{
    if s.len() == 0 {
        seq![Seq::empty()]
    } else {
        let c = components(s.drop_last());
        if s.last() == '.' {
            c.push(Seq::empty())
        } else {
            c.update(c.len() - 1, c.last().push(s.last()))
        }
    }
}

/// Whether a part is a number that fits in 64 bits.
pub open spec fn numeric_part(p: Seq<char>) -> bool {
    p.len() > 0 && (forall|i: int| 0 <= i < p.len() ==> is_digit(#[trigger] p[i])) && digits_value(p)
        <= u64::MAX
}

/// `major.minor.patch`, each a decimal number, or nothing.
pub open spec fn version_of(s: Seq<char>) -> Option<(nat, nat, nat)> {
    let c = components(s);
    if c.len() == 3 && numeric_part(c[0]) && numeric_part(c[1]) && numeric_part(c[2]) {
        Some((digits_value(c[0]), digits_value(c[1]), digits_value(c[2])))
    } else {
        None
    }
}

/// Whether `required` names a later version than `running`; false where
/// either does not read as a version.
pub open spec fn newer_spec(running: Seq<char>, required: Seq<char>) -> bool {
    match (version_of(running), version_of(required)) {
        (Some(a), Some(b)) => b.0 > a.0 || (b.0 == a.0 && (b.1 > a.1 || (b.1 == a.1 && b.2
            > a.2))),
        _ => false,
    }
}

proof fn lemma_digits_value_grows(p: Seq<char>, q: Seq<char>)
    requires
        p.len() <= q.len(),
        q.subrange(0, p.len() as int) == p,
        forall|i: int| 0 <= i < q.len() ==> is_digit(#[trigger] q[i]),
    ensures
        digits_value(p) <= digits_value(q),
    decreases q.len(),
{
    if q.len() > p.len() {
        let q2 = q.drop_last();
        assert(q2.subrange(0, p.len() as int) =~= p);
        lemma_digits_value_grows(p, q2);
    } else {
        assert(q =~= p);
    }
}

/// The parts of `s` between dots, as character lists.
pub fn split_components(s: &str) -> (r: Vec<Vec<char>>)
    ensures
        r@.map_values(|v: Vec<char>| v@) == components(s@),
{
    let n = s.unicode_len();
    let mut parts: Vec<Vec<char>> = Vec::new();
    let mut cur: Vec<char> = Vec::new();
    let mut i: usize = 0;
    while i < n
        invariant
            i <= n,
            n == s@.len(),
            components(s@.subrange(0, i as int)) == parts@.map_values(|v: Vec<char>| v@).push(cur@),
        decreases n - i,
    {
        let ghost pre = s@.subrange(0, i as int);
        let ghost post = s@.subrange(0, i + 1);
        assert(post.drop_last() =~= pre);
        let ch = s.get_char(i);
        let ghost pv = parts@.map_values(|v: Vec<char>| v@);
        if ch == '.' {
            let done = cur;
            cur = Vec::new();
            parts.push(done);
            assert(parts@.map_values(|v: Vec<char>| v@) =~= pv.push(done@));
            assert(cur@ =~= Seq::<char>::empty());
        } else {
            cur.push(ch);
            assert(pv.push(cur@) =~= components(pre).update(pv.len() as int, components(pre).last().push(ch)));
        }
        i = i + 1;
    }
    assert(s@.subrange(0, n as int) =~= s@);
    let ghost pv = parts@.map_values(|v: Vec<char>| v@);
    parts.push(cur);
    assert(parts@.map_values(|v: Vec<char>| v@) =~= pv.push(cur@));
    parts
}

/// The number a part denotes, where it is a number that fits in 64 bits.
pub fn part_value(p: &Vec<char>) -> (r: Option<u64>)
    ensures
        match r {
            Some(v) => numeric_part(p@) && v == digits_value(p@),
            None => !numeric_part(p@),
        },
{
    if p.len() == 0 {
        return None;
    }
    let mut v: u64 = 0;
    let mut i: usize = 0;
    while i < p.len()
        invariant
            i <= p.len(),
            forall|j: int| 0 <= j < i ==> is_digit(#[trigger] p@[j]),
            v == digits_value(p@.subrange(0, i as int)),
        decreases p.len() - i,
    {
        let ghost pre = p@.subrange(0, i as int);
        assert(p@.subrange(0, i + 1).drop_last() =~= pre);
        let ch = p[i];
        if !('0' <= ch && ch <= '9') {
            return None;
        }
        let d = (ch as u32 - '0' as u32) as u64;
        if v > (u64::MAX - d) / 10 {
            proof {
                assert(digits_value(p@.subrange(0, i + 1)) > u64::MAX) by (nonlinear_arith)
                    requires
                        digits_value(p@.subrange(0, i + 1)) == v * 10 + d,
                        v > (u64::MAX - d) / 10,
                        d <= 9,
                ;
                if forall|j: int| 0 <= j < p@.len() ==> is_digit(#[trigger] p@[j]) {
                    lemma_digits_value_grows(p@.subrange(0, i + 1), p@);
                }
            }
            return None;
        }
        proof {
            assert(v * 10 + d <= u64::MAX) by (nonlinear_arith)
                requires
                    v <= (u64::MAX - d) / 10,
                    d <= 9,
            ;
        }
        v = v * 10 + d;
        i = i + 1;
    }
    assert(p@.subrange(0, p.len() as int) =~= p@);
    Some(v)
}

/// Reads `major.minor.patch`.
pub fn parse_version(s: &str) -> (r: Option<(u64, u64, u64)>)
    ensures
        match (r, version_of(s@)) {
            (Some(v), Some(w)) => v.0 == w.0 && v.1 == w.1 && v.2 == w.2,
            (None, None) => true,
            _ => false,
        },
{
    let parts = split_components(s);
    let ghost c = components(s@);
    assert(parts@.len() == c.len());
    if parts.len() != 3 {
        return None;
    }
    assert(parts@[0]@ == c[0] && parts@[1]@ == c[1] && parts@[2]@ == c[2]);
    let a = part_value(&parts[0]);
    let b = part_value(&parts[1]);
    let d = part_value(&parts[2]);
    match (a, b, d) {
        (Some(x), Some(y), Some(z)) => Some((x, y, z)),
        _ => None,
    }
}

/// Whether `required` names a later version than `running`.
pub fn is_newer(running: &str, required: &str) -> (r: bool)
    ensures
        r == newer_spec(running@, required@),
{
    match (parse_version(running), parse_version(required)) {
        (Some(a), Some(b)) => b.0 > a.0 || (b.0 == a.0 && (b.1 > a.1 || (b.1 == a.1 && b.2 > a.2))),
        _ => false,
    }
}

/// The version a descriptor demands and the running one lacks, if any.
pub open spec fn gate_spec(running: Seq<char>, declared: Option<Seq<char>>) -> Option<Seq<char>> {
    match declared {
        Some(m) => if newer_spec(running, m) {
            Some(m)
        } else {
            None
        },
        None => None,
    }
}

/// Checks a declared minimum version against the running one: the required
/// version comes back as the error where it is later.
pub fn check_min_version(running: &str, min_version: Option<String>) -> (r: Result<(), String>)
    ensures
        match r {
            Ok(_) => gate_spec(
                running@,
                match min_version {
                    Some(m) => Some(m@),
                    None => None,
                },
            ) is None,
            Err(e) => gate_spec(
                running@,
                match min_version {
                    Some(m) => Some(m@),
                    None => None,
                },
            ) == Some(e@),
        },
{
    match min_version {
        Some(m) => {
            if is_newer(running, m.as_str()) {
                Err(m)
            } else {
                Ok(())
            }
        },
        None => Ok(()),
    }
}

/// The version gate on a descriptor's text: it fails with the required
/// version where `config.min_version` names one later than `running`. Text
/// that does not decode passes.
pub fn check_makefile_min_version(external_descriptor: &str, running: &str) -> (r: Result<
    (),
    String,
>)
    ensures
        match r {
            Ok(_) => gate_spec(running@, toml_min_version(external_descriptor@)) is None,
            Err(e) => gate_spec(running@, toml_min_version(external_descriptor@)) == Some(e@),
        },
{
    check_min_version(running, declared_min_version(external_descriptor))
}

/// Without a declared minimum, any running version is accepted.
pub proof fn lemma_gate_without_minimum(running: Seq<char>)
    ensures
        gate_spec(running, None) is None,
{
}

} // verus!
