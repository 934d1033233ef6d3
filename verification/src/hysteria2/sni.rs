//! Which server names a certificate may be shown for.

use vstd::prelude::*;

use crate::order::{comes_before, text_before, text_order_is_total, text_order_is_transitive};
use crate::text::{
    ascii_lower_text, chars_of, contains_between, ends_with, has_prefix, lower_chars, same_chars,
    starts_with, text_of, text_views, trailing_start, without_trailing,
};

verus! {

/// How strictly the server name of a client is checked.
#[derive(Clone, Copy, Debug, PartialEq, Eq, Structural)]
pub enum SniGuardMode {
    Disable,
    DnsSan,
    Strict,
}

/// A name in lower case, without the dots at its end.
pub open spec fn normal_name(name: Seq<char>) -> Seq<char> {
    ascii_lower_text(without_trailing(name, '.'))
}

fn normal_chars(name: &str) -> (normal: Vec<char>)
    ensures
        normal@ == normal_name(name@),
{
    let mut chars = chars_of(name);
    let end: usize = trailing_start(chars.as_slice(), '.');
    let ghost whole = chars@;
    chars.truncate(end);
    assert(chars@ =~= whole.take(end as int));
    lower_chars(chars.as_slice())
}

/// `pattern` is `*.` and a domain, and `name` is one label in front of that domain.
pub open spec fn wildcard_matches(pattern: Seq<char>, name: Seq<char>) -> bool {
    exists|label: Seq<char>| #[trigger] wildcard_label(pattern, name, label)
}

pub open spec fn wildcard_label(pattern: Seq<char>, name: Seq<char>, label: Seq<char>) -> bool {
    &&& has_prefix(pattern, seq!['*', '.'])
    &&& label.len() > 0
    &&& !label.contains('.')
    &&& name == label + seq!['.'] + pattern.skip(2)
}

pub open spec fn dns_name_matches_spec(pattern: Seq<char>, name: Seq<char>) -> bool {
    normal_name(pattern) == normal_name(name) || wildcard_matches(
        normal_name(pattern),
        normal_name(name),
    )
}

/// Whether a name is the pattern itself, or one label under a wildcard.
pub fn dns_name_matches(pattern: &str, name: &str) -> (matched: bool)
    ensures
        matched == dns_name_matches_spec(pattern@, name@),
{
    let p = normal_chars(pattern);
    let n = normal_chars(name);
    if same_chars(p.as_slice(), n.as_slice()) {
        return true;
    }
    let star: [char; 2] = ['*', '.'];
    assert(star@ =~= seq!['*', '.']);
    if !starts_with(p.as_slice(), &star) {
        return false;
    }
    let suffix: Vec<char> = tail_of(&p, 1);
    assert(suffix@ =~= seq!['.'] + p@.skip(2)) by {
        assert(p@.take(2)[1] == p@[1]);
    }
    if !ends_with(n.as_slice(), suffix.as_slice()) {
        proof {
            if wildcard_matches(p@, n@) {
                let label = choose|label: Seq<char>| #[trigger] wildcard_label(p@, n@, label);
                assert(n@.skip(n@.len() - suffix@.len()) =~= suffix@);
            }
        }
        return false;
    }
    let label_len: usize = n.len() - suffix.len();
    let has_dot = contains_between(n.as_slice(), 0, label_len, '.');
    proof {
        let found = n@.subrange(0, label_len as int);
        assert(n@ =~= found + seq!['.'] + p@.skip(2)) by {
            assert(n@.skip(label_len as int) == suffix@);
            assert(n@ =~= n@.take(label_len as int) + n@.skip(label_len as int));
            assert(found =~= n@.take(label_len as int));
        }
        if label_len > 0 && !has_dot {
            assert(wildcard_label(p@, n@, found));
        }
        if wildcard_matches(p@, n@) {
            let label = choose|label: Seq<char>| #[trigger] wildcard_label(p@, n@, label);
            assert(label.len() == label_len);
            assert(label =~= found) by {
                assert forall|i: int| 0 <= i < label_len implies label[i] == found[i] by {
                    assert(n@[i] == label[i]);
                }
            }
        }
    }
    label_len > 0 && !has_dot
}

fn tail_of(chars: &Vec<char>, from: usize) -> (tail: Vec<char>)
    requires
        from <= chars@.len(),
    ensures
        tail@ == chars@.skip(from as int),
{
    let mut tail: Vec<char> = Vec::new();
    let mut i: usize = from;
    while i < chars.len()
        invariant
            from <= i <= chars@.len(),
            tail@ == chars@.subrange(from as int, i as int),
        decreases chars@.len() - i,
    {
        tail.push(chars[i]);
        i += 1;
        assert(tail@ =~= chars@.subrange(from as int, i as int));
    }
    assert(tail@ =~= chars@.skip(from as int));
    tail
}

/// Every name comes before the next: sorted, and none occurs twice.
pub open spec fn is_ascending(names: Seq<Seq<char>>) -> bool {
    forall|i: int, j: int|
        0 <= i < j < names.len() ==> text_before(#[trigger] names[i], #[trigger] names[j])
}

/// `name` is the normal form of one of the first `count` names, and not empty.
pub open spec fn is_normal_of(name: Seq<char>, names: Seq<Seq<char>>, count: int) -> bool {
    name.len() > 0 && exists|i: int| 0 <= i < count && normal_name(#[trigger] names[i]) == name
}

/// `normal` holds the normal forms of `names`, sorted, each once, without the empty one.
pub open spec fn is_normalized(normal: Seq<Seq<char>>, names: Seq<Seq<char>>, count: int) -> bool {
    &&& is_ascending(normal)
    &&& forall|name: Seq<char>| #[trigger]
        normal.contains(name) <==> is_normal_of(name, names, count)
}

/// The normal forms of names, sorted and without duplicates.
pub fn normalize_dns_names(names: &Vec<String>) -> (normal: Vec<String>)
    ensures
        is_normalized(text_views(normal@), text_views(names@), names@.len() as int),
{
    let mut normal: Vec<String> = Vec::new();
    let mut i: usize = 0;
    proof {
        assert forall|name: Seq<char>| #[trigger] text_views(normal@).contains(name) <==> is_normal_of(
            name,
            text_views(names@),
            0,
        ) by {}
    }
    while i < names.len()
        invariant
            i <= names@.len(),
            is_normalized(text_views(normal@), text_views(names@), i as int),
        decreases names@.len() - i,
    {
        let name = normal_chars(names[i].as_str());
        assert(text_views(names@)[i as int] == names@[i as int]@);
        let ghost before = text_views(normal@);
        if name.len() > 0 {
            let text = text_of(name.as_slice(), 0, name.len());
            assert(text@ =~= name@);
            insert_name(&mut normal, text);
        }
        proof {
            let all = text_views(names@);
            assert forall|x: Seq<char>| #[trigger] text_views(normal@).contains(x) <==> is_normal_of(
                x,
                all,
                i + 1,
            ) by {
                assert(before.contains(x) <==> is_normal_of(x, all, i as int));
                if is_normal_of(x, all, i + 1) && !is_normal_of(x, all, i as int) {
                    let k = choose|k: int|
                        0 <= k < i + 1 && normal_name(#[trigger] all[k]) == x;
                    assert(k == i);
                }
                if x.len() > 0 && x == name@ {
                    assert(normal_name(all[i as int]) == x);
                }
            }
        }
        i += 1;
    }
    normal
}

/// Puts a name into an ascending row, unless it is there.
fn insert_name(names: &mut Vec<String>, name: String)
    requires
        is_ascending(text_views(old(names)@)),
    ensures
        is_ascending(text_views(final(names)@)),
        forall|x: Seq<char>|
            #[trigger] text_views(final(names)@).contains(x) <==> text_views(old(names)@).contains(x) || x
                == name@,
{
    let ghost before = text_views(names@);
    let chars = chars_of(name.as_str());
    let mut at: usize = 0;
    while at < names.len()
        invariant
            names@ == old(names)@,
            before == text_views(names@),
            is_ascending(before),
            chars@ == name@,
            at <= names@.len(),
            forall|i: int| 0 <= i < at ==> text_before(#[trigger] before[i], name@),
        decreases names@.len() - at,
    {
        let other = chars_of(names[at].as_str());
        assert(before[at as int] == other@);
        if same_chars(other.as_slice(), chars.as_slice()) {
            assert(before.contains(name@));
            return ;
        }
        if comes_before(chars.as_slice(), other.as_slice()) {
            insert_at(names, at, name);
            return ;
        }
        proof {
            text_order_is_total(other@, chars@);
        }
        at += 1;
    }
    insert_at(names, at, name);
}

fn insert_at(names: &mut Vec<String>, at: usize, name: String)
    requires
        is_ascending(text_views(old(names)@)),
        at <= old(names)@.len(),
        forall|i: int| 0 <= i < at ==> text_before(#[trigger] text_views(old(names)@)[i], name@),
        at < old(names)@.len() ==> text_before(name@, text_views(old(names)@)[at as int]),
    ensures
        is_ascending(text_views(final(names)@)),
        forall|x: Seq<char>|
            #[trigger] text_views(final(names)@).contains(x) <==> text_views(old(names)@).contains(x) || x
                == name@,
{
    let ghost before = text_views(names@);
    let ghost new = name@;
    names.insert(at, name);
    proof {
        let after = text_views(names@);
        assert(after =~= before.insert(at as int, new));
        assert forall|i: int, j: int| 0 <= i < j < after.len() implies text_before(
            #[trigger] after[i],
            #[trigger] after[j],
        ) by {
            let a = if i < at {
                i
            } else {
                i - 1
            };
            let b = if j < at {
                j
            } else {
                j - 1
            };
            if i != at && j != at {
                assert(after[i] == before[a]);
                assert(after[j] == before[b]);
            } else if i == at {
                assert(after[j] == before[b]);
                if b > at {
                    text_order_is_transitive(new, before[at as int], before[b]);
                }
            } else {
                assert(after[i] == before[a]);
            }
        }
        assert forall|x: Seq<char>| #[trigger] after.contains(x) <==> before.contains(x) || x
            == new by {
            if after.contains(x) {
                let i = choose|i: int| 0 <= i < after.len() && after[i] == x;
                if i < at {
                    assert(before[i] == x);
                } else if i > at {
                    assert(before[i - 1] == x);
                }
            }
            if before.contains(x) {
                let i = choose|i: int| 0 <= i < before.len() && before[i] == x;
                if i < at {
                    assert(after[i] == x);
                } else {
                    assert(after[i + 1] == x);
                }
            }
            assert(after[at as int] == new);
        }
    }
}

/// The names that a client may ask for.
pub struct SniGuard {
    pub names: Vec<String>,
    pub strict: bool,
}

impl SniGuard {
    pub fn new(names: &Vec<String>, strict: bool) -> (guard: Self)
        ensures
            is_normalized(text_views(guard.names@), text_views(names@), names@.len() as int),
            guard.strict == strict,
    {
        Self { names: normalize_dns_names(names), strict }
    }

    /// The guard of a mode; none where the check is off.
    pub fn for_mode(names: &Vec<String>, mode: SniGuardMode) -> (guard: Option<Self>)
        ensures
            guard is None <==> mode == SniGuardMode::Disable,
            guard matches Some(g) ==> {
                &&& is_normalized(text_views(g.names@), text_views(names@), names@.len() as int)
                &&& g.strict == (mode == SniGuardMode::Strict)
            },
    {
        match mode {
            SniGuardMode::Disable => None,
            SniGuardMode::DnsSan => Some(Self::new(names, false)),
            SniGuardMode::Strict => Some(Self::new(names, true)),
        }
    }

    pub open spec fn allows_spec(names: Seq<Seq<char>>, strict: bool, sni: Seq<char>) -> bool {
        if strict {
            names.contains(normal_name(sni))
        } else {
            exists|i: int|
                0 <= i < names.len() && dns_name_matches_spec(#[trigger] names[i], sni)
        }
    }

    /// Whether a client that asks for `sni` gets the certificate. One that
    /// names no server does not.
    pub fn allows(&self, sni: Option<&str>) -> (allowed: bool)
        ensures
            match sni {
                Some(name) => allowed == Self::allows_spec(
                    text_views(self.names@),
                    self.strict,
                    name@,
                ),
                None => !allowed,
            },
    {
        let name: &str = match sni {
            Some(name) => name,
            None => {
                return false;
            },
        };
        let normal = normal_chars(name);
        let ghost names = text_views(self.names@);
        let mut i: usize = 0;
        while i < self.names.len()
            invariant
                i <= self.names@.len(),
                sni == Some(name),
                names == text_views(self.names@),
                normal@ == normal_name(name@),
                self.strict ==> forall|j: int|
                    0 <= j < i ==> #[trigger] names[j] != normal_name(name@),
                !self.strict ==> forall|j: int|
                    0 <= j < i ==> !dns_name_matches_spec(#[trigger] names[j], name@),
            decreases self.names@.len() - i,
        {
            assert(names[i as int] == self.names@[i as int]@);
            if self.strict {
                let own = chars_of(self.names[i].as_str());
                if same_chars(own.as_slice(), normal.as_slice()) {
                    assert(names.contains(normal_name(name@)));
                    return true;
                }
            } else if dns_name_matches(self.names[i].as_str(), name) {
                return true;
            }
            i += 1;
        }
        false
    }
}

proof fn trimmed_stays(s: Seq<char>, c: char)
    ensures
        without_trailing(s, c).len() == 0 || without_trailing(s, c).last() != c,
        without_trailing(without_trailing(s, c), c) == without_trailing(s, c),
    decreases s.len(),
{
    if s.len() > 0 && s.last() == c {
        trimmed_stays(s.drop_last(), c);
    }
}

/// A name in normal form is its own normal form.
pub proof fn normal_name_is_stable(name: Seq<char>)
    ensures
        normal_name(normal_name(name)) == normal_name(name),
{
    let trimmed = without_trailing(name, '.');
    let normal = normal_name(name);
    trimmed_stays(name, '.');
    if normal.len() > 0 {
        assert(normal.last() == crate::text::ascii_lower(trimmed.last()));
        assert(normal.last() != '.');
    }
    assert(without_trailing(normal, '.') == normal);
    assert(ascii_lower_text(normal) =~= normal);
}

/// What the strict check lets in, the lenient one lets in too.
pub proof fn strict_is_stricter(normal: Seq<Seq<char>>, names: Seq<Seq<char>>, sni: Seq<char>)
    requires
        is_normalized(normal, names, names.len() as int),
        SniGuard::allows_spec(normal, true, sni),
    ensures
        SniGuard::allows_spec(normal, false, sni),
{
    let wanted = normal_name(sni);
    let i = choose|i: int| 0 <= i < normal.len() && normal[i] == wanted;
    normal_name_is_stable(sni);
    assert(dns_name_matches_spec(normal[i], sni));
}

} // verus!
