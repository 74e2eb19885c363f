//! Qualified names of elements and attributes.
use vstd::prelude::*;
use crate::escape::push_char;

verus! {

/// The view of an optional string.
pub open spec fn opt_view(o: Option<String>) -> Option<Seq<char>> {
    match o {
        Some(s) => Some(s@),
        None => None,
    }
}

/// A qualified name: a local name, with an optional namespace prefix and
/// the namespace URI that the prefix is bound to, where it is known.
pub struct Name {
    /// The local name, the part after the prefix separator.
    pub local_name: String,
    /// The namespace URI that the name belongs to, where it has been resolved.
    pub namespace: Option<String>,
    /// The prefix, the part before the separator, where there is one.
    pub prefix: Option<String>,
}

/// The mathematical content of a name.
pub struct NameView {
    pub local_name: Seq<char>,
    pub namespace: Option<Seq<char>>,
    pub prefix: Option<Seq<char>>,
}

impl View for Name {
    type V = NameView;

    open spec fn view(&self) -> NameView {
        NameView {
            local_name: self.local_name@,
            namespace: opt_view(self.namespace),
            prefix: opt_view(self.prefix),
        }
    }
}

/// The prefixed form `prefix:local_name` of a name, or its local name alone.
pub open spec fn name_repr(n: NameView) -> Seq<char> {
    match n.prefix {
        Some(p) => p + ":"@ + n.local_name,
        None => n.local_name,
    }
}

/// The form of a name in messages: `{namespace}prefix:local_name`, each
/// part where it is present.
pub open spec fn name_display(n: NameView) -> Seq<char> {
    (match n.namespace {
        Some(ns) => "{"@ + ns + "}"@,
        None => Seq::empty(),
    }) + name_repr(n)
}

/// The prefix of a name, or the empty text where it has none.
pub open spec fn prefix_or_empty(n: NameView) -> Seq<char> {
    match n.prefix {
        Some(p) => p,
        None => Seq::empty(),
    }
}

/// `s` holds no prefix separator.
pub open spec fn no_colon(s: Seq<char>) -> bool {
    forall|i: int| 0 <= i < s.len() ==> s[i] != ':'
}

/// The name that a qualified-name text stands for: either a non-empty local
/// name without a separator, or a non-empty prefix, a separator and a
/// non-empty local name, with no other separator.
pub open spec fn parse_qualified(s: Seq<char>) -> Option<NameView> {
    if no_colon(s) {
        if s.len() > 0 {
            Some(NameView { local_name: s, namespace: None, prefix: None })
        } else {
            None
        }
    } else {
        let i = choose|i: int| 0 <= i < s.len() && s[i] == ':';
        if 0 < i && i + 1 < s.len() && no_colon(s.subrange(0, i)) && no_colon(
            s.subrange(i + 1, s.len() as int),
        ) {
            Some(
                NameView {
                    local_name: s.subrange(i + 1, s.len() as int),
                    namespace: None,
                    prefix: Some(s.subrange(0, i)),
                },
            )
        } else {
            None
        }
    }
}

/// Copies a string (`str::to_string` on a string slice).
pub(crate) fn copy_str(s: &str) -> (r: String)
    ensures
        r@ == s@,
{
    String::from_str(s)
}

/// Copies an optional string.
pub(crate) fn copy_opt(o: &Option<String>) -> (r: Option<String>)
    ensures
        opt_view(r) == opt_view(*o),
{
    match o {
        Some(s) => Some(s.clone()),
        None => None,
    }
}

/// Compares two optional strings by their contents.
pub(crate) fn opt_eq(a: &Option<String>, b: &Option<String>) -> (r: bool)
    ensures
        r == (opt_view(*a) == opt_view(*b)),
{
    match (a, b) {
        (Some(x), Some(y)) => *x == *y,
        (None, None) => true,
        _ => false,
    }
}

impl Name {
    /// A name with a local part only.
    pub fn local(local_name: &str) -> (n: Name)
        ensures
            n@ == (NameView { local_name: local_name@, namespace: None, prefix: None }),
    {
        Name { local_name: copy_str(local_name), namespace: None, prefix: None }
    }

    /// A name with a prefix and a local part, and no namespace yet.
    pub fn prefixed(local_name: &str, prefix: &str) -> (n: Name)
        ensures
            n@ == (NameView {
                local_name: local_name@,
                namespace: None,
                prefix: Some(prefix@),
            }),
    {
        Name { local_name: copy_str(local_name), namespace: None, prefix: Some(copy_str(prefix)) }
    }

    /// A copy of this name.
    pub fn copy(&self) -> (n: Name)
        ensures
            n@ == self@,
    {
        Name {
            local_name: self.local_name.clone(),
            namespace: copy_opt(&self.namespace),
            prefix: copy_opt(&self.prefix),
        }
    }

    /// Whether two names have equal parts.
    pub fn same_as(&self, other: &Name) -> (r: bool)
        ensures
            r == (self@ == other@),
    {
        self.local_name == other.local_name && opt_eq(&self.namespace, &other.namespace) && opt_eq(
            &self.prefix,
            &other.prefix,
        )
    }

    /// The prefixed form of this name, as written in markup.
    pub fn to_repr(&self) -> (r: String)
        ensures
            r@ == name_repr(self@),
    {
        match &self.prefix {
            Some(p) => {
                let mut r = p.clone();
                r.append(":");
                r.append(self.local_name.as_str());
                r
            },
            None => self.local_name.clone(),
        }
    }

    /// The form of this name in messages, with its namespace in braces.
    pub fn to_display_string(&self) -> (r: String)
        ensures
            r@ == name_display(self@),
    {
        let mut r = String::new();
        match &self.namespace {
            Some(ns) => {
                r.append("{");
                r.append(ns.as_str());
                r.append("}");
            },
            None => {},
        }
        let repr = self.to_repr();
        r.append(repr.as_str());
        proof {
            assert(r@ =~= name_display(self@));
        }
        r
    }

    /// The prefix of this name, or the empty string where it has none.
    pub fn prefix_repr(&self) -> (r: String)
        ensures
            r@ == prefix_or_empty(self@),
    {
        match &self.prefix {
            Some(p) => p.clone(),
            None => String::new(),
        }
    }

    /// Parses a qualified name of the form `local_name` or
    /// `prefix:local_name`; the namespace of the result is not resolved.
    pub fn parse(s: &str) -> (r: Option<Name>)
        ensures
            match r {
                Some(n) => parse_qualified(s@) == Some(n@),
                None => parse_qualified(s@) is None,
            },
    {
        let mut first = String::new();
        let mut second = String::new();
        let mut seen_colon = false;
        let mut valid = true;
        let ghost mut k: int = -1;
        let ghost mut extra: int = -1;
        for c in it: s.chars()
            invariant
                it.seq() == s@,
                seen_colon <==> k >= 0,
                !seen_colon ==> first@ == s@.take(it.index() as int) && second@.len() == 0,
                seen_colon ==> {
                    &&& 0 <= k < it.index()
                    &&& s@[k] == ':'
                    &&& first@ == s@.take(k)
                },
                no_colon(first@),
                valid ==> (seen_colon ==> second@ == s@.subrange(k + 1, it.index() as int)
                    && no_colon(second@)),
                !valid ==> seen_colon && k < extra < it.index() && s@[extra] == ':',
        {
            let ghost idx = it.index() as int;
            if c == ':' {
                if seen_colon {
                    proof {
                        if valid {
                            extra = idx;
                        }
                    }
                    valid = false;
                } else {
                    seen_colon = true;
                    proof {
                        k = idx;
                    }
                }
            } else if seen_colon {
                if valid {
                    push_char(&mut second, c);
                    assert(second@ =~= s@.subrange(k + 1, idx + 1));
                }
            } else {
                push_char(&mut first, c);
                assert(first@ =~= s@.take(idx + 1));
            }
        }
        let ghost t = s@;
        if !seen_colon {
            assert(first@ =~= t);
            if first.as_str().is_empty() {
                None
            } else {
                Some(Name { local_name: first, namespace: None, prefix: None })
            }
        } else {
            assert(!no_colon(t));
            let ghost i = choose|i: int| 0 <= i < t.len() && t[i] == ':';
            if valid && !first.as_str().is_empty() && !second.as_str().is_empty() {
                proof {
                    assert(second@ =~= t.subrange(k + 1, t.len() as int));
                    assert(first@ =~= t.subrange(0, k));
                    if i < k {
                        assert(first@[i] == ':');
                    } else if i > k {
                        assert(second@[i - k - 1] == ':');
                    }
                }
                Some(Name { local_name: second, namespace: None, prefix: Some(first) })
            } else {
                proof {
                    if valid {
                        assert(first@ =~= t.subrange(0, k));
                        assert(second@ =~= t.subrange(k + 1, t.len() as int));
                        if i < k {
                            assert(first@[i] == ':');
                        } else if i > k {
                            assert(second@[i - k - 1] == ':');
                        }
                    } else {
                        if i < k {
                            assert(first@[i] == ':');
                        } else if i == k {
                            assert(t.subrange(k + 1, t.len() as int)[extra - k - 1] == ':');
                        } else {
                            assert(t.subrange(0, i)[k] == ':');
                        }
                    }
                }
                None
            }
        }
    }
}

/// Writing a name in prefixed form and parsing it back gives the name,
/// without its namespace, where the local name and the prefix are
/// non-empty and hold no separator.
pub proof fn law_repr_parse_roundtrip(n: NameView)
    requires
        n.local_name.len() > 0,
        no_colon(n.local_name),
        n.prefix is Some ==> n.prefix->0.len() > 0 && no_colon(n.prefix->0),
    ensures
        parse_qualified(name_repr(n)) == Some(NameView { namespace: None, ..n }),
{
    match n.prefix {
        None => {},
        Some(p) => {
            reveal_strlit(":");
            let s = name_repr(n);
            let l = n.local_name;
            assert(s =~= p + seq![':'] + l);
            assert(s[p.len() as int] == ':');
            assert(!no_colon(s));
            let i = choose|i: int| 0 <= i < s.len() && s[i] == ':';
            if i < p.len() {
                assert(s[i] == p[i]);
            } else if i > p.len() {
                assert(s[i] == l[i - p.len() - 1]);
            }
            assert(i == p.len());
            assert(s.subrange(0, i) =~= p);
            assert(s.subrange(i + 1, s.len() as int) =~= l);
        },
    }
}

} // verus!
