//! Namespace mappings: from prefixes to namespace URIs.
use vstd::prelude::*;
use crate::name::copy_str;

verus! {

/// The prefix bound to the XML namespace.
pub const NS_XML_PREFIX: &'static str = "xml";

/// The URI of the XML namespace.
pub const NS_XML_URI: &'static str = "http://www.w3.org/XML/1998/namespace";

/// The prefix bound to the namespace of namespace declarations.
pub const NS_XMLNS_PREFIX: &'static str = "xmlns";

/// The URI of the namespace of namespace declarations.
pub const NS_XMLNS_URI: &'static str = "http://www.w3.org/2000/xmlns/";

/// The key under which the default namespace is stored: no prefix at all.
pub const NS_NO_PREFIX: &'static str = "";

/// The URI that stands for "no namespace".
pub const NS_EMPTY_URI: &'static str = "";

/// The view of a namespace: its `(prefix, uri)` entries in order; the empty
/// prefix stands for the default namespace.
pub type NamespaceView = Seq<(Seq<char>, Seq<char>)>;

/// The URI that the first entry for `prefix` holds, if there is one.
pub open spec fn ns_get(m: NamespaceView, prefix: Seq<char>) -> Option<Seq<char>>
    decreases m.len(),
{
    if m.len() == 0 {
        None
    } else if m[0].0 == prefix {
        Some(m[0].1)
    } else {
        ns_get(m.drop_first(), prefix)
    }
}

/// The URI bound to `prefix` by the innermost namespace of a stack that
/// binds it.
pub open spec fn stack_get(s: Seq<NamespaceView>, prefix: Seq<char>) -> Option<Seq<char>>
    decreases s.len(),
{
    if s.len() == 0 {
        None
    } else {
        match ns_get(s.last(), prefix) {
            Some(uri) => Some(uri),
            None => stack_get(s.drop_last(), prefix),
        }
    }
}

/// `acc` followed by the entries of `ns`, in order, whose prefix is not
/// bound by what comes before them.
pub open spec fn merge_new(acc: NamespaceView, ns: NamespaceView) -> NamespaceView
    decreases ns.len(),
{
    if ns.len() == 0 {
        acc
    } else {
        let a = merge_new(acc, ns.drop_last());
        if ns_get(a, ns.last().0) is None {
            a.push(ns.last())
        } else {
            a
        }
    }
}

/// The bindings in force in a stack of scopes: the bindings of the innermost
/// scope first, then those of each outer scope in turn, each prefix once,
/// with its innermost binding.
pub open spec fn stack_mappings(s: Seq<NamespaceView>) -> NamespaceView
    decreases s.len(),
{
    if s.len() == 0 {
        Seq::empty()
    } else {
        merge_new(stack_mappings(s.drop_first()), s[0])
    }
}

/// A set of bindings from prefixes to namespace URIs. The entry whose prefix
/// is empty binds the default namespace.
pub struct Namespace {
    pub entries: Vec<(String, String)>,
}

impl View for Namespace {
    type V = NamespaceView;

    open spec fn view(&self) -> NamespaceView {
        self.entries@.map_values(|e: (String, String)| (e.0@, e.1@))
    }
}

impl Namespace {
    /// A namespace without bindings.
    pub fn empty() -> (n: Namespace)
        ensures
            n@ == Seq::<(Seq<char>, Seq<char>)>::empty(),
    {
        let n = Namespace { entries: Vec::new() };
        assert(n@ =~= Seq::<(Seq<char>, Seq<char>)>::empty());
        n
    }

    /// The URI bound to `prefix` in this namespace.
    pub fn get(&self, prefix: &str) -> (r: Option<String>)
        ensures
            match r {
                Some(u) => ns_get(self@, prefix@) == Some(u@),
                None => ns_get(self@, prefix@) is None,
            },
    {
        let key = copy_str(prefix);
        let n = self.entries.len();
        let mut i: usize = 0;
        assert(self@.skip(0) =~= self@);
        while i < n
            invariant
                n == self.entries@.len(),
                i <= n,
                key@ == prefix@,
                ns_get(self@, prefix@) == ns_get(self@.skip(i as int), prefix@),
            decreases n - i,
        {
            assert(self@.skip(i as int).drop_first() =~= self@.skip(i + 1));
            if self.entries[i].0 == key {
                return Some(self.entries[i].1.clone());
            }
            i = i + 1;
        }
        assert(self@.skip(n as int).len() == 0);
        None
    }

    /// Binds `prefix` to `uri` unless this namespace binds the prefix
    /// already; an existing binding is never replaced. Returns whether the
    /// binding was added.
    pub fn put(&mut self, prefix: &str, uri: &str) -> (added: bool)
        ensures
            added == (ns_get(old(self)@, prefix@) is None),
            added ==> final(self)@ == old(self)@.push((prefix@, uri@)),
            !added ==> final(self)@ == old(self)@,
    {
        match self.get(prefix) {
            Some(_) => false,
            None => {
                let ghost before = self@;
                self.entries.push((copy_str(prefix), copy_str(uri)));
                assert(self@ =~= before.push((prefix@, uri@)));
                true
            },
        }
    }
}

/// A stack of namespaces; inner scopes are pushed on top of outer ones.
pub struct NamespaceStack(pub Vec<Namespace>);

impl View for NamespaceStack {
    type V = Seq<NamespaceView>;

    open spec fn view(&self) -> Seq<NamespaceView> {
        self.0@.map_values(|n: Namespace| n@)
    }
}

impl NamespaceStack {
    /// A stack without namespaces.
    pub fn empty() -> (s: NamespaceStack)
        ensures
            s@ == Seq::<NamespaceView>::empty(),
    {
        let s = NamespaceStack(Vec::new());
        assert(s@ =~= Seq::<NamespaceView>::empty());
        s
    }

    /// A stack of one namespace that binds the predefined prefixes `xml` and
    /// `xmlns` and binds no prefix to no namespace.
    pub fn default() -> (s: NamespaceStack)
        ensures
            s@ == seq![
                seq![
                    (NS_XML_PREFIX@, NS_XML_URI@),
                    (NS_XMLNS_PREFIX@, NS_XMLNS_URI@),
                    (NS_NO_PREFIX@, NS_EMPTY_URI@),
                ],
            ],
    {
        let mut entries: Vec<(String, String)> = Vec::new();
        entries.push((copy_str(NS_XML_PREFIX), copy_str(NS_XML_URI)));
        entries.push((copy_str(NS_XMLNS_PREFIX), copy_str(NS_XMLNS_URI)));
        entries.push((copy_str(NS_NO_PREFIX), copy_str(NS_EMPTY_URI)));
        assert(entries@.len() == 3);
        let ns = Namespace { entries };
        let ghost nsv = ns@;
        let mut v: Vec<Namespace> = Vec::new();
        v.push(ns);
        let s = NamespaceStack(v);
        proof {
            assert(s.0@.len() == 1);
            assert(s@[0] == nsv);
            assert(nsv.len() == 3);
            assert(nsv[0] == (NS_XML_PREFIX@, NS_XML_URI@));
            assert(nsv[1] == (NS_XMLNS_PREFIX@, NS_XMLNS_URI@));
            assert(nsv[2] == (NS_NO_PREFIX@, NS_EMPTY_URI@));
            assert(s@[0] =~= seq![
                (NS_XML_PREFIX@, NS_XML_URI@),
                (NS_XMLNS_PREFIX@, NS_XMLNS_URI@),
                (NS_NO_PREFIX@, NS_EMPTY_URI@),
            ]);
            assert(s@ =~= seq![s@[0]]);
        }
        s
    }

    /// Opens a new, empty scope on top of the stack.
    pub fn push_empty(&mut self)
        ensures
            final(self)@ == old(self)@.push(Seq::<(Seq<char>, Seq<char>)>::empty()),
    {
        let ghost before = self@;
        self.0.push(Namespace::empty());
        assert(self@ =~= before.push(Seq::<(Seq<char>, Seq<char>)>::empty()));
    }

    /// Binds `prefix` to `uri` in the innermost scope, unless that scope
    /// binds the prefix already. Returns whether the binding was added.
    pub fn put(&mut self, prefix: &str, uri: &str) -> (added: bool)
        requires
            old(self)@.len() > 0,
        ensures
            final(self)@.len() == old(self)@.len(),
            final(self)@.drop_last() == old(self)@.drop_last(),
            added == (ns_get(old(self)@.last(), prefix@) is None),
            added ==> final(self)@.last() == old(self)@.last().push((prefix@, uri@)),
            !added ==> final(self)@ == old(self)@,
    {
        let ghost before = self@;
        let last = self.0.len() - 1;
        let mut top = self.0.pop().unwrap();
        let added = top.put(prefix, uri);
        self.0.push(top);
        assert(self@ =~= before.drop_last().push(top@));
        assert(before =~= before.drop_last().push(before.last()));
        added
    }

    /// The URI that the innermost scope binding `prefix` binds it to.
    pub fn get(&self, prefix: &str) -> (r: Option<String>)
        ensures
            match r {
                Some(u) => stack_get(self@, prefix@) == Some(u@),
                None => stack_get(self@, prefix@) is None,
            },
    {
        let mut i: usize = self.0.len();
        assert(self@.take(i as int) =~= self@);
        while i > 0
            invariant
                i <= self.0@.len(),
                stack_get(self@, prefix@) == stack_get(self@.take(i as int), prefix@),
            decreases i,
        {
            let ghost t = self@.take(i as int);
            assert(t.drop_last() =~= self@.take(i - 1));
            assert(t.last() == self.0@[i - 1]@);
            match self.0[i - 1].get(prefix) {
                Some(u) => {
                    return Some(u);
                },
                None => {},
            }
            i = i - 1;
        }
        assert(self@.take(0) =~= Seq::<NamespaceView>::empty());
        None
    }

    /// The bindings in force in this stack, as one namespace: innermost
    /// scope first, each prefix once, with its innermost binding.
    pub fn uri_mappings(&self) -> (r: Namespace)
        ensures
            r@ == stack_mappings(self@),
    {
        let mut r = Namespace::empty();
        let mut i: usize = self.0.len();
        assert(self@.skip(i as int) =~= Seq::<NamespaceView>::empty());
        while i > 0
            invariant
                i <= self.0@.len(),
                r@ == stack_mappings(self@.skip(i as int)),
            decreases i,
        {
            let ns = &self.0[i - 1];
            let ghost acc = r@;
            let n = ns.entries.len();
            let mut j: usize = 0;
            assert(ns@.take(0) =~= Seq::<(Seq<char>, Seq<char>)>::empty());
            while j < n
                invariant
                    n == ns.entries@.len(),
                    j <= n,
                    r@ == merge_new(acc, ns@.take(j as int)),
                decreases n - j,
            {
                let entry = &ns.entries[j];
                assert(ns@.take(j + 1).drop_last() =~= ns@.take(j as int));
                assert(ns@.take(j + 1).last() == (entry.0@, entry.1@));
                r.put(entry.0.as_str(), entry.1.as_str());
                j = j + 1;
            }
            assert(ns@.take(n as int) =~= ns@);
            assert(self@.skip(i - 1).drop_first() =~= self@.skip(i as int));
            assert(self@.skip(i - 1)[0] == ns@);
            i = i - 1;
        }
        assert(self@.skip(0) =~= self@);
        r
    }
}

} // verus!
