//! The backend registry: how man page backends are described, the sorted map
//! that holds them, and how a name or alias is resolved to a backend.
use vstd::prelude::*;
use crate::error::UmanError;
use crate::text::{chars_of, owned, push_str, str_eq, string_of};

verus! {

/// Lexicographic order on character sequences, comparing code points (the
/// order of `String`, whose bytes are UTF-8).
pub open spec fn lex_lt(a: Seq<char>, b: Seq<char>) -> bool
    decreases a.len(),
{
    if a.len() == 0 {
        b.len() > 0
    } else if b.len() == 0 {
        false
    } else if a[0] < b[0] {
        true
    } else if a[0] == b[0] {
        lex_lt(a.drop_first(), b.drop_first())
    } else {
        false
    }
}

/// No sequence comes before itself.
pub proof fn lemma_lex_irreflexive(a: Seq<char>)
    ensures
        !lex_lt(a, a),
    decreases a.len(),
{
    if a.len() > 0 {
        lemma_lex_irreflexive(a.drop_first());
    }
}

/// The order is transitive.
pub proof fn lemma_lex_transitive(a: Seq<char>, b: Seq<char>, c: Seq<char>)
    requires
        lex_lt(a, b),
        lex_lt(b, c),
    ensures
        lex_lt(a, c),
    decreases a.len(),
{
    if a.len() > 0 && b.len() > 0 && c.len() > 0 && a[0] == b[0] && b[0] == c[0] {
        lemma_lex_transitive(a.drop_first(), b.drop_first(), c.drop_first());
    }
}

/// Of two different sequences, one comes first.
pub proof fn lemma_lex_total(a: Seq<char>, b: Seq<char>)
    requires
        a != b,
    ensures
        lex_lt(a, b) || lex_lt(b, a),
    decreases a.len(),
{
    if a.len() == 0 || b.len() == 0 {
        if a.len() == 0 && b.len() == 0 {
            assert(a =~= b);
        }
    } else if a[0] == b[0] {
        if a.drop_first() == b.drop_first() {
            assert(a.drop_first().len() == a.len() - 1 && b.drop_first().len() == b.len() - 1);
            assert(a.len() == b.len());
            assert(a =~= b) by {
                assert forall|i: int| 0 <= i < a.len() implies a[i] == b[i] by {
                    if i > 0 {
                        assert(a[i] == a.drop_first()[i - 1]);
                        assert(b[i] == b.drop_first()[i - 1]);
                    }
                }
            }
        }
        lemma_lex_total(a.drop_first(), b.drop_first());
    }
}

/// Whether `a` comes before `b` in the order of `lex_lt`.
pub fn lex_less(a: &[char], b: &[char]) -> (r: bool)
    ensures
        r == lex_lt(a@, b@),
{
    let mut i: usize = 0;
    assert(a@.skip(0) == a@ && b@.skip(0) == b@);
    while i < a.len() && i < b.len() && a[i] == b[i]
        invariant
            i <= a@.len(),
            i <= b@.len(),
            lex_lt(a@, b@) == lex_lt(a@.skip(i as int), b@.skip(i as int)),
        decreases a.len() - i,
    {
        assert(a@.skip(i as int).drop_first() == a@.skip(i + 1));
        assert(b@.skip(i as int).drop_first() == b@.skip(i + 1));
        i += 1;
    }
    let ghost sa = a@.skip(i as int);
    let ghost sb = b@.skip(i as int);
    if i == a.len() {
        assert(sa.len() == 0);
        i < b.len()
    } else if i == b.len() {
        false
    } else {
        assert(sa[0] == a@[i as int] && sb[0] == b@[i as int]);
        a[i] < b[i]
    }
}

/// Keys in strictly increasing order (so none occurs twice).
pub open spec fn keys_sorted(ks: Seq<Seq<char>>) -> bool {
    forall|i: int, j: int| 0 <= i < j < ks.len() ==> lex_lt(#[trigger] ks[i], #[trigger] ks[j])
}

/// The first position of `k` among `ks`.
pub open spec fn key_position(ks: Seq<Seq<char>>, k: Seq<char>) -> Option<int>
    decreases ks.len(),
{
    if ks.len() == 0 {
        None
    } else if ks.last() == k {
        match key_position(ks.drop_last(), k) {
            Some(i) => Some(i),
            None => Some(ks.len() - 1),
        }
    } else {
        key_position(ks.drop_last(), k)
    }
}

/// In sorted keys, a key's position is the one place that holds it.
pub proof fn lemma_key_position(ks: Seq<Seq<char>>, k: Seq<char>)
    requires
        keys_sorted(ks),
    ensures
        key_position(ks, k) matches Some(i) ==> 0 <= i < ks.len() && ks[i] == k,
        key_position(ks, k) is None ==> !ks.contains(k),
        forall|i: int| 0 <= i < ks.len() && ks[i] == k ==> key_position(ks, k) == Some(i),
    decreases ks.len(),
{
    if ks.len() > 0 {
        let init = ks.drop_last();
        assert(keys_sorted(init)) by {
            assert forall|i: int, j: int| 0 <= i < j < init.len() implies lex_lt(#[trigger] init[i], #[trigger] init[j]) by {
                assert(init[i] == ks[i] && init[j] == ks[j]);
            }
        }
        lemma_key_position(init, k);
        assert forall|i: int| 0 <= i < ks.len() && ks[i] == k implies key_position(ks, k) == Some(i) by {
            if i < ks.len() - 1 {
                assert(init[i] == ks[i]);
                if ks.last() == k {
                    assert(lex_lt(ks[i], ks[ks.len() - 1]));
                    lemma_lex_irreflexive(k);
                }
            } else {
                if init.contains(k) {
                    let j = choose|j: int| 0 <= j < init.len() && init[j] == k;
                    assert(lex_lt(ks[j], ks[ks.len() - 1]));
                    lemma_lex_irreflexive(k);
                }
            }
        }
        if key_position(ks, k) is None {
            assert(!ks.contains(k)) by {
                if ks.contains(k) {
                    let j = choose|j: int| 0 <= j < ks.len() && ks[j] == k;
                    assert(key_position(ks, k) == Some(j));
                }
            }
        }
    }
}


/// How a backend's pages are fetched.
#[derive(Clone, Copy, PartialEq, Eq, Debug, Structural)]
pub enum FetchMethod {
    Git,
    Curl,
}

/// The markup of a backend's pages.
#[derive(Clone, Copy, PartialEq, Eq, Debug, Structural)]
pub enum ManFormat {
    Roff,
}

impl FetchMethod {
    /// Reads a fetching method from its name, `git` or `curl`.
    pub fn from_str(s: &str) -> (r: Result<FetchMethod, String>)
        ensures
            s@ == "git"@ ==> r == Ok::<FetchMethod, String>(FetchMethod::Git),
            s@ == "curl"@ ==> r == Ok::<FetchMethod, String>(FetchMethod::Curl),
            s@ != "git"@ && s@ != "curl"@ ==> (r matches Err(msg) && msg@ == "unknown fetching method '"@
                + s@ + "': must be 'git' or 'curl'"@),
    {
        proof {
            reveal_strlit("git");
            reveal_strlit("curl");
            assert("git"@.len() == 3 && "curl"@.len() == 4);
        }
        let v = chars_of(s);
        let git = chars_of("git");
        let curl = chars_of("curl");
        if crate::text::chars_eq(&v, &git) {
            Ok(FetchMethod::Git)
        } else if crate::text::chars_eq(&v, &curl) {
            Ok(FetchMethod::Curl)
        } else {
            let mut out: Vec<char> = Vec::new();
            push_str(&mut out, "unknown fetching method '");
            push_str(&mut out, s);
            push_str(&mut out, "': must be 'git' or 'curl'");
            Err(string_of(&out))
        }
    }

    /// The name of the method.
    pub fn to_string(&self) -> (r: String)
        ensures
            r@ == fetch_method_name(*self),
    {
        match self {
            FetchMethod::Git => string_of(&chars_of("git")),
            FetchMethod::Curl => string_of(&chars_of("curl")),
        }
    }
}

/// The name of a fetching method.
pub open spec fn fetch_method_name(m: FetchMethod) -> Seq<char> {
    match m {
        FetchMethod::Git => "git"@,
        FetchMethod::Curl => "curl"@,
    }
}

/// The name of a page format.
pub open spec fn man_format_name(f: ManFormat) -> Seq<char> {
    match f {
        ManFormat::Roff => "roff"@,
    }
}

impl ManFormat {
    /// Reads a page format from its name; only `roff` exists.
    pub fn from_str(s: &str) -> (r: Result<ManFormat, String>)
        ensures
            s@ == "roff"@ ==> r == Ok::<ManFormat, String>(ManFormat::Roff),
            s@ != "roff"@ ==> (r matches Err(msg) && msg@ == "unknown format '"@ + s@
                + "': currently only 'roff' is supported"@),
    {
        let v = chars_of(s);
        let roff = chars_of("roff");
        if crate::text::chars_eq(&v, &roff) {
            Ok(ManFormat::Roff)
        } else {
            let mut out: Vec<char> = Vec::new();
            push_str(&mut out, "unknown format '");
            push_str(&mut out, s);
            push_str(&mut out, "': currently only 'roff' is supported");
            Err(string_of(&out))
        }
    }

    /// The name of the format.
    pub fn to_string(&self) -> (r: String)
        ensures
            r@ == man_format_name(*self),
    {
        string_of(&chars_of("roff"))
    }
}

/// The format a backend has when its description names none.
pub fn default_format() -> (r: ManFormat)
    ensures
        r == ManFormat::Roff,
{
    ManFormat::Roff
}

/// The fetching method a backend has when its description names none.
pub fn default_fetching() -> (r: FetchMethod)
    ensures
        r == FetchMethod::Git,
{
    FetchMethod::Git
}

/// A man page backend: where its pages come from and the other names it
/// answers to.
#[derive(Debug)]
pub struct BackendDef {
    pub name: String,
    pub source: String,
    pub format: ManFormat,
    pub fetching: FetchMethod,
    pub aliases: Vec<String>,
}

/// The aliases of a backend as character sequences.
pub open spec fn alias_seq(def: BackendDef) -> Seq<Seq<char>> {
    def.aliases@.map_values(|a: String| a@)
}

/// Whether `name` is among `aliases`.
pub fn has_alias(aliases: &Vec<String>, name: &str) -> (r: bool)
    ensures
        r == aliases@.map_values(|a: String| a@).contains(name@),
{
    let ghost seq_view = aliases@.map_values(|a: String| a@);
    let mut i: usize = 0;
    while i < aliases.len()
        invariant
            i <= aliases@.len(),
            seq_view == aliases@.map_values(|a: String| a@),
            forall|k: int| 0 <= k < i ==> seq_view[k] != name@,
        decreases aliases.len() - i,
    {
        if str_eq(aliases[i].as_str(), name) {
            assert(seq_view[i as int] == name@);
            return true;
        }
        i += 1;
    }
    false
}

/// A copy of a string.
pub fn copy_string(s: &String) -> (r: String)
    ensures
        r@ == s@,
{
    string_of(&chars_of(s.as_str()))
}

/// A copy of a list of strings.
pub fn copy_strings(v: &Vec<String>) -> (r: Vec<String>)
    ensures
        r@.map_values(|a: String| a@) == v@.map_values(|a: String| a@),
{
    let mut out: Vec<String> = Vec::new();
    let mut i: usize = 0;
    while i < v.len()
        invariant
            i <= v@.len(),
            out@.len() == i,
            out@.map_values(|a: String| a@) == v@.map_values(|a: String| a@).take(i as int),
        decreases v.len() - i,
    {
        let ghost before = out@;
        out.push(copy_string(&v[i]));
        assert(out@.map_values(|a: String| a@) =~= v@.map_values(|a: String| a@).take(i + 1));
        i += 1;
    }
    assert(v@.map_values(|a: String| a@).take(v@.len() as int) == v@.map_values(|a: String| a@));
    out
}

/// Two backend descriptions that say the same.
pub open spec fn same_def(a: BackendDef, b: BackendDef) -> bool {
    &&& a.name@ == b.name@
    &&& a.source@ == b.source@
    &&& a.format == b.format
    &&& a.fetching == b.fetching
    &&& alias_seq(a) == alias_seq(b)
}

impl BackendDef {
    /// A copy of this description.
    pub fn duplicate(&self) -> (r: BackendDef)
        ensures
            same_def(r, *self),
    {
        BackendDef {
            name: copy_string(&self.name),
            source: copy_string(&self.source),
            format: self.format,
            fetching: self.fetching,
            aliases: copy_strings(&self.aliases),
        }
    }
}

/// Backends keyed by name, kept in the order of their keys.
pub struct BackendMap {
    entries: Vec<(String, BackendDef)>,
}

/// The keys of a list of entries.
pub open spec fn entry_keys(entries: Seq<(String, BackendDef)>) -> Seq<Seq<char>> {
    entries.map_values(|e: (String, BackendDef)| e.0@)
}

/// Removing an entry keeps the keys sorted.
proof fn lemma_remove_sorted(entries: Seq<(String, BackendDef)>, p: int)
    requires
        keys_sorted(entry_keys(entries)),
        0 <= p < entries.len(),
    ensures
        keys_sorted(entry_keys(entries.remove(p))),
{
    let ks = entry_keys(entries);
    let nks = entry_keys(entries.remove(p));
    assert forall|i: int, j: int| 0 <= i < j < nks.len() implies lex_lt(#[trigger] nks[i], #[trigger] nks[j]) by {
        let i0 = if i < p { i } else { i + 1 };
        let j0 = if j < p { j } else { j + 1 };
        assert(nks[i] == ks[i0] && nks[j] == ks[j0]);
    }
}

/// Inserting a key at a position between smaller and larger keys keeps the
/// keys sorted.
proof fn lemma_insert_sorted(entries: Seq<(String, BackendDef)>, p: int, e: (String, BackendDef))
    requires
        keys_sorted(entry_keys(entries)),
        0 <= p <= entries.len(),
        forall|i: int| 0 <= i < p ==> lex_lt(#[trigger] entry_keys(entries)[i], e.0@),
        p < entries.len() ==> lex_lt(e.0@, entry_keys(entries)[p]),
    ensures
        keys_sorted(entry_keys(entries.insert(p, e))),
        entry_keys(entries.insert(p, e)) == entry_keys(entries).insert(p, e.0@),
{
    let ks = entry_keys(entries);
    let nks = entry_keys(entries.insert(p, e));
    assert(nks =~= ks.insert(p, e.0@));
    assert forall|i: int, j: int| 0 <= i < j < nks.len() implies lex_lt(#[trigger] nks[i], #[trigger] nks[j]) by {
        if j == p {
            assert(nks[i] == ks[i]);
        } else if i == p {
            assert(nks[j] == ks[j - 1]);
            if j - 1 > p {
                lemma_lex_transitive(e.0@, ks[p], ks[j - 1]);
            }
        } else {
            let i0 = if i < p { i } else { i - 1 };
            let j0 = if j < p { j } else { j - 1 };
            assert(nks[i] == ks[i0] && nks[j] == ks[j0]);
        }
    }
}

impl BackendMap {
    /// The keys, in increasing order.
    pub closed spec fn key_seq(&self) -> Seq<Seq<char>> {
        entry_keys(self.entries@)
    }

    /// The backends, in the order of their keys.
    pub closed spec fn value_seq(&self) -> Seq<BackendDef> {
        self.entries@.map_values(|e: (String, BackendDef)| e.1)
    }

    /// The backend kept under `k`.
    pub open spec fn value_of(&self, k: Seq<char>) -> Option<BackendDef> {
        match key_position(self.key_seq(), k) {
            Some(i) => Some(self.value_seq()[i]),
            None => None,
        }
    }

    /// What holds of every map: the keys are sorted (so none occurs twice),
    /// there is one backend per key, and each key finds the backend at its
    /// own position.
    pub open spec fn views_agree(&self) -> bool {
        &&& keys_sorted(self.key_seq())
        &&& self.value_seq().len() == self.key_seq().len()
        &&& forall|i: int|
            0 <= i < self.key_seq().len() ==> self.value_of(#[trigger] self.key_seq()[i]) == Some(
                self.value_seq()[i],
            )
    }

    #[verifier::type_invariant]
    closed spec fn well_formed(&self) -> bool {
        keys_sorted(entry_keys(self.entries@))
    }

    proof fn lemma_views_agree(self)
        requires
            keys_sorted(entry_keys(self.entries@)),
        ensures
            self.views_agree(),
    {
        let ks = self.key_seq();
        assert(self.value_seq().len() == ks.len());
        assert forall|i: int| 0 <= i < ks.len() implies self.value_of(#[trigger] ks[i]) == Some(
            self.value_seq()[i],
        ) by {
            lemma_key_position(ks, ks[i]);
        }
    }

    /// An empty map.
    pub fn new() -> (r: BackendMap)
        ensures
            r.key_seq() == Seq::<Seq<char>>::empty(),
            r.value_seq() == Seq::<BackendDef>::empty(),
            r.views_agree(),
    {
        let r = BackendMap { entries: Vec::new() };
        assert(r.key_seq() =~= Seq::<Seq<char>>::empty());
        assert(r.value_seq() =~= Seq::<BackendDef>::empty());
        r
    }

    /// The number of backends.
    pub fn len(&self) -> (r: usize)
        ensures
            r == self.key_seq().len(),
            self.views_agree(),
    {
        proof {
            use_type_invariant(self);
            self.lemma_views_agree();
        }
        self.entries.len()
    }

    /// Whether the map holds no backend.
    pub fn is_empty(&self) -> (r: bool)
        ensures
            r == (self.key_seq().len() == 0),
            self.views_agree(),
    {
        proof {
            use_type_invariant(self);
            self.lemma_views_agree();
        }
        self.entries.len() == 0
    }

    /// The key at position `i`.
    pub fn key_at(&self, i: usize) -> (r: &String)
        requires
            i < self.key_seq().len(),
        ensures
            r@ == self.key_seq()[i as int],
            self.views_agree(),
    {
        proof {
            use_type_invariant(self);
            self.lemma_views_agree();
        }
        &self.entries[i].0
    }

    /// The backend at position `i`.
    pub fn value_at(&self, i: usize) -> (r: &BackendDef)
        requires
            i < self.key_seq().len(),
        ensures
            *r == self.value_seq()[i as int],
            self.views_agree(),
    {
        proof {
            use_type_invariant(self);
            self.lemma_views_agree();
        }
        &self.entries[i].1
    }

    /// The position of key `key`, if the map holds it.
    fn position(&self, key: &str) -> (r: Option<usize>)
        ensures
            match r {
                Some(i) => key_position(self.key_seq(), key@) == Some(i as int),
                None => key_position(self.key_seq(), key@) is None,
            },
    {
        proof {
            use_type_invariant(self);
            lemma_key_position(self.key_seq(), key@);
        }
        let mut i: usize = 0;
        while i < self.entries.len()
            invariant
                i <= self.entries@.len(),
                forall|k: int| 0 <= k < i ==> self.key_seq()[k] != key@,
                key_position(self.key_seq(), key@) is None ==> !self.key_seq().contains(key@),
                forall|p: int| 0 <= p < self.key_seq().len() && self.key_seq()[p] == key@ ==> key_position(self.key_seq(), key@) == Some(p),
            decreases self.entries.len() - i,
        {
            if str_eq(self.entries[i].0.as_str(), key) {
                assert(self.key_seq()[i as int] == key@);
                return Some(i);
            }
            i += 1;
        }
        proof {
            if key_position(self.key_seq(), key@) is Some {
                lemma_key_position(self.key_seq(), key@);
            }
        }
        None
    }

    /// The backend kept under `key`.
    pub fn get(&self, key: &str) -> (r: Option<&BackendDef>)
        ensures
            match r {
                Some(v) => self.value_of(key@) == Some(*v),
                None => self.value_of(key@) is None,
            },
            self.views_agree(),
    {
        proof {
            use_type_invariant(self);
            self.lemma_views_agree();
        }
        proof {
            use_type_invariant(self);
            lemma_key_position(self.key_seq(), key@);
        }
        match self.position(key) {
            Some(i) => Some(&self.entries[i].1),
            None => None,
        }
    }

    /// Whether the map holds the key `key`.
    pub fn contains_key(&self, key: &str) -> (r: bool)
        ensures
            r == self.key_seq().contains(key@),
            r == self.value_of(key@) is Some,
            self.views_agree(),
    {
        proof {
            use_type_invariant(self);
            self.lemma_views_agree();
        }
        proof {
            use_type_invariant(self);
            lemma_key_position(self.key_seq(), key@);
        }
        self.position(key).is_some()
    }

    /// The keys, in increasing order.
    pub fn keys(&self) -> (r: Vec<String>)
        ensures
            r@.map_values(|k: String| k@) == self.key_seq(),
            keys_sorted(self.key_seq()),
            self.views_agree(),
    {
        proof {
            use_type_invariant(self);
            self.lemma_views_agree();
        }
        proof {
            use_type_invariant(self);
        }
        let mut out: Vec<String> = Vec::new();
        let mut i: usize = 0;
        while i < self.entries.len()
            invariant
                i <= self.entries@.len(),
                out@.len() == i,
                out@.map_values(|k: String| k@) == self.key_seq().take(i as int),
            decreases self.entries.len() - i,
        {
            let ghost before = out@;
            out.push(copy_string(&self.entries[i].0));
                assert(out@.map_values(|k: String| k@) =~= self.key_seq().take(i + 1));
            i += 1;
        }
        assert(self.key_seq().take(self.entries@.len() as int) == self.key_seq());
        out
    }

    /// The smallest key, if any.
    pub fn first_key(&self) -> (r: Option<&String>)
        ensures
            self.key_seq().len() == 0 ==> r is None,
            self.key_seq().len() > 0 ==> (r matches Some(k) && k@ == self.key_seq()[0]),
            self.views_agree(),
    {
        proof {
            use_type_invariant(self);
            self.lemma_views_agree();
        }
        if self.entries.len() == 0 {
            None
        } else {
            Some(&self.entries[0].0)
        }
    }

    /// Puts `value` under `key`, replacing and returning what was there.
    pub fn insert(&mut self, key: String, value: BackendDef) -> (r: Option<BackendDef>)
        ensures
            r == old(self).value_of(key@),
            final(self).value_of(key@) == Some(value),
            forall|k: Seq<char>| k != key@ ==> final(self).value_of(k) == old(self).value_of(k),
            final(self).key_seq().to_set() == old(self).key_seq().to_set().insert(key@),
            final(self).views_agree(),
            (forall|i: int| 0 <= i < old(self).key_seq().len() ==> lex_lt(#[trigger] old(self).key_seq()[i], key@))
                ==> final(self).key_seq() == old(self).key_seq().push(key@)
                && final(self).value_seq() == old(self).value_seq().push(value),
    {
        proof {
            use_type_invariant(&*self);
        }
        let ghost old_entries = self.entries@;
        let ghost ks = self.key_seq();
        let kc = chars_of(key.as_str());
        let mut p: usize = 0;
        while p < self.entries.len() && lex_less(&chars_of(self.entries[p].0.as_str()), &kc)
            invariant
                p <= self.entries@.len(),
                self.entries@ == old_entries,
                ks == entry_keys(old_entries),
                keys_sorted(ks),
                kc@ == key@,
                forall|i: int| 0 <= i < p ==> lex_lt(#[trigger] ks[i], key@),
            decreases self.entries.len() - p,
        {
            p += 1;
        }
        proof {
            lemma_key_position(ks, key@);
            lemma_lex_irreflexive(key@);
        }
        let same = p < self.entries.len() && str_eq(self.entries[p].0.as_str(), key.as_str());
        let ghost k_in = ks.contains(key@);
        proof {
            if same {
                assert(old_entries[p as int].0@ == key@);
                assert(ks[p as int] == key@);
                assert(key_position(ks, key@) == Some(p as int));
            }
            if !same && ks.contains(key@) {
                let j = choose|j: int| 0 <= j < ks.len() && ks[j] == key@;
                if j < p {
                    assert(lex_lt(ks[j], key@));
                } else if j > p {
                    lemma_lex_total(ks[p as int], key@);
                    assert(lex_lt(ks[p as int], ks[j]));
                    if lex_lt(key@, ks[p as int]) {
                        lemma_lex_transitive(key@, ks[p as int], ks[j]);
                    }
                }
            }
            if !same && p < ks.len() {
                lemma_lex_total(ks[p as int], key@);
            }
        }
        let entry = (key, value);
        let ghost e = entry;
        if same {
            proof {
                lemma_remove_sorted(old_entries, p as int);
                assert(old_entries.remove(p as int).insert(p as int, e) =~= old_entries.update(p as int, e));
                assert(entry_keys(old_entries.update(p as int, e)) =~= ks);
            }
            let mut entries: Vec<(String, BackendDef)> = Vec::new();
            std::mem::swap(&mut entries, &mut self.entries);
            let (_, old_value) = entries.remove(p);
            entries.insert(p, entry);
            assert(entries@ =~= old_entries.update(p as int, e));
            self.entries = entries;
            proof {
                assert(self.entries@ =~= old_entries.update(p as int, e));
                assert(self.key_seq() == ks);
                assert(key_position(ks, key@) == Some(p as int));
                assert forall|k: Seq<char>| k != key@ implies self.value_of(k) == old(self).value_of(k) by {
                    lemma_key_position(ks, k);
                }
                assert(self.value_seq() =~= old(self).value_seq().update(p as int, e.1));
                assert(lex_lt(ks[p as int], key@) ==> false);
                use_type_invariant(&*self);
                self.lemma_views_agree();
            }
            Some(old_value)
        } else {
            proof {
                lemma_insert_sorted(old_entries, p as int, e);
            }
            let mut entries: Vec<(String, BackendDef)> = Vec::new();
            std::mem::swap(&mut entries, &mut self.entries);
            entries.insert(p, entry);
            self.entries = entries;
            proof {
                let nks = self.key_seq();
                assert(nks == ks.insert(p as int, key@));
                assert(!ks.contains(key@));
                lemma_key_position(nks, key@);
                assert(nks[p as int] == key@);
                assert(self.value_seq() =~= old(self).value_seq().insert(p as int, e.1));
                if p == ks.len() {
                    assert(ks.insert(p as int, key@) =~= ks.push(key@));
                    assert(old(self).value_seq().insert(p as int, e.1) =~= old(self).value_seq().push(e.1));
                }
                if p < ks.len() {
                    assert(!lex_lt(ks[p as int], key@));
                }
                use_type_invariant(&*self);
                self.lemma_views_agree();
                assert forall|k: Seq<char>| k != key@ implies self.value_of(k) == old(self).value_of(k) by {
                    lemma_key_position(nks, k);
                    lemma_key_position(ks, k);
                    match key_position(ks, k) {
                        Some(i) => {
                            let ni = if i < p { i } else { i + 1 };
                            assert(nks[ni] == k);
                        },
                        None => {
                            if nks.contains(k) {
                                let j = choose|j: int| 0 <= j < nks.len() && nks[j] == k;
                                let j0 = if j < p { j } else { j - 1 };
                                assert(ks[j0] == k);
                            }
                        },
                    }
                }
                assert(nks.to_set() =~= ks.to_set().insert(key@)) by {
                    assert forall|k: Seq<char>| nks.to_set().contains(k) <==> ks.to_set().insert(key@).contains(k) by {
                        if nks.contains(k) && k != key@ {
                            let j = choose|j: int| 0 <= j < nks.len() && nks[j] == k;
                            let j0 = if j < p { j } else { j - 1 };
                            assert(ks[j0] == k);
                        }
                        if ks.contains(k) {
                            let j = choose|j: int| 0 <= j < ks.len() && ks[j] == k;
                            let nj = if j < p { j } else { j + 1 };
                            assert(nks[nj] == k);
                        }
                    }
                }
            }
            None
        }
    }
}


/// A backend description given by its parts.
pub open spec fn def_is(
    d: BackendDef,
    name: Seq<char>,
    source: Seq<char>,
    aliases: Seq<Seq<char>>,
) -> bool {
    &&& d.name@ == name
    &&& d.source@ == source
    &&& d.format == ManFormat::Roff
    &&& d.fetching == FetchMethod::Git
    &&& alias_seq(d) == aliases
}

/// The built-in backends, in the order of their keys: each entry is
/// (key, source, aliases); a built-in backend's name is its key.
pub open spec fn builtin_backends() -> Seq<(Seq<char>, Seq<char>, Seq<Seq<char>>)> {
    seq![
        ("apple"@, "https://github.com/basarsubasi/apple-man.git"@, seq!["macos"@, "darwin"@, "apple"@]),
        ("freebsd"@, "https://github.com/basarsubasi/freebsd-man.git"@, seq!["freebsd"@, "bsd"@]),
        ("linux-upstream"@, "https://git.kernel.org/pub/scm/docs/man-pages/man-pages.git"@, seq!["linux"@, "goat"@]),
        ("netbsd"@, "https://github.com/basarsubasi/netbsd-man.git"@, seq!["netbsd"@]),
        ("openbsd"@, "https://github.com/basarsubasi/openbsd-man.git"@, seq!["openbsd"@]),
    ]
}

/// `d` is the built-in backend at position `i` of `builtin_backends`.
pub open spec fn is_builtin(d: BackendDef, i: int) -> bool {
    let b = builtin_backends()[i];
    def_is(d, b.0, b.1, b.2)
}

fn make_def(name: &str, source: &str, aliases: Vec<String>) -> (r: BackendDef)
    ensures
        r.name@ == name@,
        r.source@ == source@,
        r.format == ManFormat::Roff,
        r.fetching == FetchMethod::Git,
        r.aliases@ == aliases@,
{
    BackendDef {
        name: string_of(&chars_of(name)),
        source: string_of(&chars_of(source)),
        format: ManFormat::Roff,
        fetching: FetchMethod::Git,
        aliases,
    }
}

/// The built-in backends, in the order of their keys.
pub fn builtin_backend_list() -> (r: Vec<BackendDef>)
    ensures
        r@.len() == 5,
        forall|i: int| 0 <= i < 5 ==> is_builtin(#[trigger] r@[i], i),
{
    let mut r: Vec<BackendDef> = Vec::new();
    let apple = make_def("apple", "https://github.com/basarsubasi/apple-man.git", vec![owned("macos"), owned("darwin"), owned("apple")]);
    assert(alias_seq(apple) =~= seq!["macos"@, "darwin"@, "apple"@]);
    r.push(apple);
    let freebsd = make_def("freebsd", "https://github.com/basarsubasi/freebsd-man.git", vec![owned("freebsd"), owned("bsd")]);
    assert(alias_seq(freebsd) =~= seq!["freebsd"@, "bsd"@]);
    r.push(freebsd);
    let linux = make_def("linux-upstream", "https://git.kernel.org/pub/scm/docs/man-pages/man-pages.git", vec![owned("linux"), owned("goat")]);
    assert(alias_seq(linux) =~= seq!["linux"@, "goat"@]);
    r.push(linux);
    let netbsd = make_def("netbsd", "https://github.com/basarsubasi/netbsd-man.git", vec![owned("netbsd")]);
    assert(alias_seq(netbsd) =~= seq!["netbsd"@]);
    r.push(netbsd);
    let openbsd = make_def("openbsd", "https://github.com/basarsubasi/openbsd-man.git", vec![owned("openbsd")]);
    assert(alias_seq(openbsd) =~= seq!["openbsd"@]);
    r.push(openbsd);
    r
}

/// `m` holds the built-in backend at position `i` under its key.
pub open spec fn holds_builtin(m: BackendMap, i: int) -> bool {
    m.value_of(builtin_backends()[i].0) matches Some(d) && is_builtin(d, i)
}

/// The keys of the built-in backends, in increasing order.
pub open spec fn builtin_keys() -> Seq<Seq<char>> {
    builtin_backends().map_values(|b: (Seq<char>, Seq<char>, Seq<Seq<char>>)| b.0)
}

/// `m` holds exactly the built-in backends, each under its key, in key order.
pub open spec fn holds_builtins_exactly(m: BackendMap) -> bool {
    &&& m.key_seq() == builtin_keys()
    &&& m.value_seq().len() == 5
    &&& forall|i: int| 0 <= i < 5 ==> is_builtin(#[trigger] m.value_seq()[i], i)
}

proof fn lemma_builtin_keys_sorted()
    ensures
        keys_sorted(builtin_keys()),
        builtin_keys().len() == 5,
{
    reveal_strlit("apple");
    reveal_strlit("freebsd");
    reveal_strlit("linux-upstream");
    reveal_strlit("netbsd");
    reveal_strlit("openbsd");
    let ks = builtin_keys();
    assert(ks[0][0] == 'a' && ks[1][0] == 'f' && ks[2][0] == 'l' && ks[3][0] == 'n' && ks[4][0] == 'o');
    assert(ks[0].len() > 0 && ks[1].len() > 0 && ks[2].len() > 0 && ks[3].len() > 0 && ks[4].len() > 0);
    assert forall|i: int, j: int| 0 <= i < j < ks.len() implies lex_lt(#[trigger] ks[i], #[trigger] ks[j]) by {
        assert(ks[i][0] < ks[j][0]);
    }
}

/// The built-in backends as a map keyed by name.
pub fn builtin_backend_map() -> (r: BackendMap)
    ensures
        r.key_seq().to_set() == builtin_backends().map_values(|b: (Seq<char>, Seq<char>, Seq<Seq<char>>)| b.0).to_set(),
        forall|i: int| 0 <= i < 5 ==> #[trigger] holds_builtin(r, i),
        holds_builtins_exactly(r),
        r.views_agree(),
{
    proof {
        lemma_builtin_keys_sorted();
    }
    let list = builtin_backend_list();
    let mut map = BackendMap::new();
    let ghost table = builtin_backends();
    let ghost keys = table.map_values(|b: (Seq<char>, Seq<char>, Seq<Seq<char>>)| b.0);
    proof {
        reveal_strlit("apple");
        reveal_strlit("freebsd");
        reveal_strlit("linux-upstream");
        reveal_strlit("netbsd");
        reveal_strlit("openbsd");
        assert("apple"@.len() == 5 && "freebsd"@.len() == 7 && "linux-upstream"@.len() == 14);
        assert("netbsd"@.len() == 6 && "openbsd"@.len() == 7);
        assert("freebsd"@[0] == 'f' && "openbsd"@[0] == 'o');
        assert(forall|i: int, j: int| 0 <= i < j < 5 ==> keys[i] != keys[j]);
    }
    let mut i: usize = 0;
    assert(map.key_seq().to_set() =~= keys.take(0).to_set());
    assert(map.key_seq() =~= keys.take(0));
    while i < list.len()
        invariant
            list@.len() == 5,
            i <= 5,
            forall|k: int| 0 <= k < 5 ==> is_builtin(#[trigger] list@[k], k),
            map.key_seq().to_set() == keys.take(i as int).to_set(),
            forall|k: int| 0 <= k < i ==> #[trigger] holds_builtin(map, k),
            forall|i1: int, j1: int| 0 <= i1 < j1 < 5 ==> keys[i1] != keys[j1],
            table == builtin_backends(),
            keys == table.map_values(|b: (Seq<char>, Seq<char>, Seq<Seq<char>>)| b.0),
            keys == builtin_keys(),
            keys_sorted(keys),
            map.key_seq() == keys.take(i as int),
            map.value_seq().len() == i,
            forall|k: int| 0 <= k < i ==> is_builtin(#[trigger] map.value_seq()[k], k),
            map.views_agree(),
        decreases list.len() - i,
    {
        let d = list[i].duplicate();
        let key = copy_string(&d.name);
        assert(key@ == keys[i as int]);
        let ghost dv = d;
        let ghost before = map;
        assert forall|j: int| 0 <= j < before.key_seq().len() implies lex_lt(#[trigger] before.key_seq()[j], key@) by {
            assert(before.key_seq()[j] == keys[j]);
        }
        map.insert(key, d);
        proof {
            assert(keys.take(i as int).push(keys[i as int]) =~= keys.take(i + 1));
            assert forall|k: int| 0 <= k < i + 1 implies is_builtin(#[trigger] map.value_seq()[k], k) by {
                if k < i {
                    assert(map.value_seq()[k] == before.value_seq()[k]);
                }
            }
            assert(is_builtin(dv, i as int));
            assert(keys.take(i + 1) =~= keys.take(i as int) + seq![keys[i as int]]);
            Seq::<Seq<char>>::lemma_to_set_insert_commutes(keys.take(i as int), keys[i as int]);
            assert(keys.take(i + 1).to_set() =~= keys.take(i as int).to_set().insert(keys[i as int]));
            assert forall|k: int| 0 <= k < i + 1 implies #[trigger] holds_builtin(map, k) by {
                assert(keys[k] == builtin_backends()[k].0);
                if k == i {
                    assert(map.value_of(keys[k]) == Some(dv));
                    assert(is_builtin(dv, k));
                } else {
                    assert(keys[k] != keys[i as int]);
                    assert(holds_builtin(before, k));
                    assert(map.value_of(keys[k]) == before.value_of(keys[k]));
                }
            }
        }
        i += 1;
    }
    assert(keys.take(5) == keys);
    map
}


/// The configuration: the backend registry and the default backend's name
/// (which may be an alias).
pub struct Config {
    pub backends: BackendMap,
    pub default_backend: Option<String>,
}

/// The first position among `defs` of a backend that has `name` as an alias.
pub open spec fn alias_index(defs: Seq<BackendDef>, name: Seq<char>) -> Option<int>
    decreases defs.len(),
{
    if defs.len() == 0 {
        None
    } else {
        match alias_index(defs.drop_last(), name) {
            Some(i) => Some(i),
            None => if alias_seq(defs.last()).contains(name) { Some(defs.len() - 1) } else { None },
        }
    }
}

/// From position `i` on, the first built-in backend that has `name` as an
/// alias and whose key `m` holds.
pub open spec fn builtin_fallback(m: BackendMap, name: Seq<char>, i: int) -> Option<int>
    decreases 5 - i,
{
    if i < 0 || i >= 5 {
        None
    } else if builtin_backends()[i].2.contains(name) && m.value_of(builtin_backends()[i].0) is Some {
        Some(i)
    } else {
        builtin_fallback(m, name, i + 1)
    }
}

/// The backend that `name` stands for in the registry `m`: the backend kept
/// under that key; else the first backend (in key order) with that alias;
/// else, when a built-in backend has that alias, the registry's backend under
/// the built-in backend's key.
pub open spec fn resolve_in(m: BackendMap, name: Seq<char>) -> Option<BackendDef> {
    match m.value_of(name) {
        Some(d) => Some(d),
        None => match alias_index(m.value_seq(), name) {
            Some(i) => Some(m.value_seq()[i]),
            None => match builtin_fallback(m, name, 0) {
                Some(i) => m.value_of(builtin_backends()[i].0),
                None => None,
            },
        },
    }
}

/// The default backend's name for an operating system (as `std::env::consts::OS`
/// names it): the backend of that system, and the Linux one for all others.
pub open spec fn default_backend_for(os: Seq<char>) -> Seq<char> {
    if os == "macos"@ {
        "macos"@
    } else if os == "freebsd"@ {
        "freebsd"@
    } else if os == "netbsd"@ {
        "netbsd"@
    } else if os == "openbsd"@ {
        "openbsd"@
    } else {
        "linux-upstream"@
    }
}

impl Config {
    /// The configuration written on first run for the operating system `os`:
    /// the built-in backends and that system's default backend.
    pub fn defaults(os: &str) -> (r: Config)
        ensures
            r.backends.key_seq().to_set() == builtin_backends().map_values(
                |b: (Seq<char>, Seq<char>, Seq<Seq<char>>)| b.0,
            ).to_set(),
            forall|i: int| 0 <= i < 5 ==> #[trigger] holds_builtin(r.backends, i),
            r.default_backend matches Some(n) && n@ == default_backend_for(os@),
            holds_builtins_exactly(r.backends),
            r.backends.views_agree(),
    {
        let backends = builtin_backend_map();
        let name = if str_eq(os, "macos") {
            "macos"
        } else if str_eq(os, "freebsd") {
            "freebsd"
        } else if str_eq(os, "netbsd") {
            "netbsd"
        } else if str_eq(os, "openbsd") {
            "openbsd"
        } else {
            "linux-upstream"
        };
        Config { backends, default_backend: Some(owned(name)) }
    }

    /// The backend kept under the key `name`.
    pub fn get_backend(&self, name: &str) -> (r: Result<&BackendDef, UmanError>)
        ensures
            match r {
                Ok(d) => self.backends.value_of(name@) == Some(*d),
                Err(e) => self.backends.value_of(name@) is None && (e matches UmanError::BackendNotFound(n) && n@ == name@),
            },
            self.backends.views_agree(),
    {
        proof {
            use_type_invariant(&self.backends);
            self.backends.lemma_views_agree();
        }
        match self.backends.get(name) {
            Some(d) => Ok(d),
            None => Err(UmanError::BackendNotFound(owned(name))),
        }
    }

    /// The backend that `name` (a key or an alias) stands for.
    pub fn resolve(&self, name: &str) -> (r: Result<&BackendDef, UmanError>)
        ensures
            match r {
                Ok(d) => resolve_in(self.backends, name@) == Some(*d),
                Err(e) => resolve_in(self.backends, name@) is None && (e matches UmanError::BackendNotFound(n) && n@ == name@),
            },
            self.backends.views_agree(),
    {
        proof {
            use_type_invariant(&self.backends);
            self.backends.lemma_views_agree();
        }
        if let Some(def) = self.backends.get(name) {
            return Ok(def);
        }
        let ghost vals = self.backends.value_seq();
        let n = self.backends.len();
        let mut i: usize = 0;
        while i < n
            invariant
                n == self.backends.key_seq().len(),
                n == vals.len(),
                vals == self.backends.value_seq(),
                i <= n,
                self.backends.value_of(name@) is None,
                alias_index(vals.take(i as int), name@) is None,
            decreases n - i,
        {
            let def = self.backends.value_at(i);
            assert(vals.take(i + 1).drop_last() == vals.take(i as int));
            if has_alias(&def.aliases, name) {
                proof {
                    assert(alias_index(vals.take(i + 1), name@) == Some(i as int));
                    lemma_alias_index_prefix(vals, name@, i + 1);
                }
                return Ok(def);
            }
            i += 1;
        }
        assert(vals.take(n as int) == vals);
        let defaults = builtin_backend_list();
        let mut j: usize = 0;
        while j < defaults.len()
            invariant
                defaults@.len() == 5,
                forall|k: int| 0 <= k < 5 ==> is_builtin(#[trigger] defaults@[k], k),
                j <= 5,
                builtin_fallback(self.backends, name@, 0) == builtin_fallback(self.backends, name@, j as int),
                alias_index(vals, name@) is None,
                self.backends.value_of(name@) is None,
                vals == self.backends.value_seq(),
            decreases 5 - j,
        {
            let def = &defaults[j];
            assert(is_builtin(*def, j as int));
            if has_alias(&def.aliases, name) {
                if let Some(ours) = self.backends.get(def.name.as_str()) {
                    return Ok(ours);
                }
            }
            j += 1;
        }
        Err(UmanError::BackendNotFound(owned(name)))
    }

    /// The backend that the configured default stands for, whose directory is
    /// present exactly when `installed` holds.
    pub fn get_default_backend(&self, installed: bool) -> (r: Result<&BackendDef, UmanError>)
        ensures
            match self.default_backend {
                None => r matches Err(UmanError::NoDefaultBackend),
                Some(name) => match resolve_in(self.backends, name@) {
                    None => r matches Err(UmanError::DefaultNotFoundInConfig(n)) && n@ == name@,
                    Some(d) => if installed {
                        r matches Ok(x) && *x == d
                    } else {
                        r matches Err(UmanError::DefaultNotInstalled(n)) && n@ == d.name@
                    },
                },
            },
            self.backends.views_agree(),
    {
        proof {
            use_type_invariant(&self.backends);
            self.backends.lemma_views_agree();
        }
        let name = match &self.default_backend {
            None => return Err(UmanError::NoDefaultBackend),
            Some(n) => n,
        };
        let def = match self.resolve(name.as_str()) {
            Ok(d) => d,
            Err(_) => return Err(UmanError::DefaultNotFoundInConfig(copy_string(name))),
        };
        if !installed {
            return Err(UmanError::DefaultNotInstalled(copy_string(&def.name)));
        }
        Ok(def)
    }
}

/// A key resolves to the backend kept under it, whatever aliases the other
/// backends have.
pub proof fn lemma_resolve_key(m: BackendMap, key: Seq<char>)
    requires
        m.value_of(key) is Some,
    ensures
        resolve_in(m, key) == m.value_of(key),
{
}

/// A name that is no key resolves to the first backend, in key order, that
/// has it as an alias.
pub proof fn lemma_resolve_finds_alias(m: BackendMap, name: Seq<char>, i: int)
    requires
        m.value_of(name) is None,
        0 <= i < m.value_seq().len(),
        alias_seq(m.value_seq()[i]).contains(name),
        forall|j: int| 0 <= j < i ==> !alias_seq(#[trigger] m.value_seq()[j]).contains(name),
    ensures
        resolve_in(m, name) == Some(m.value_seq()[i]),
{
    let defs = m.value_seq();
    lemma_alias_index_first(defs, name, i + 1, i);
    lemma_alias_index_prefix(defs, name, i + 1);
}

proof fn lemma_alias_index_first(defs: Seq<BackendDef>, name: Seq<char>, k: int, i: int)
    requires
        0 <= i < k <= defs.len(),
        alias_seq(defs[i]).contains(name),
        forall|j: int| 0 <= j < i ==> !alias_seq(#[trigger] defs[j]).contains(name),
    ensures
        alias_index(defs.take(k), name) == Some(i),
    decreases k,
{
    let t = defs.take(k);
    if k == i + 1 {
        assert(t.last() == defs[i]);
        assert(alias_index(t.drop_last(), name) is None) by {
            lemma_alias_index_none(defs, name, i);
            assert(t.drop_last() == defs.take(i));
        }
    } else {
        assert(t.drop_last() == defs.take(k - 1));
        lemma_alias_index_first(defs, name, k - 1, i);
    }
}

proof fn lemma_alias_index_none(defs: Seq<BackendDef>, name: Seq<char>, k: int)
    requires
        0 <= k <= defs.len(),
        forall|j: int| 0 <= j < k ==> !alias_seq(#[trigger] defs[j]).contains(name),
    ensures
        alias_index(defs.take(k), name) is None,
    decreases k,
{
    if k > 0 {
        let t = defs.take(k);
        assert(t.drop_last() == defs.take(k - 1));
        assert(t.last() == defs[k - 1]);
        lemma_alias_index_none(defs, name, k - 1);
    }
}

proof fn lemma_builtin_alias_resolves(m: BackendMap, i: int, a: Seq<char>)
    requires
        holds_builtins_exactly(m),
        m.views_agree(),
        0 <= i < 5,
        alias_seq(m.value_seq()[i]).contains(a),
    ensures
        resolve_in(m, a) == Some(m.value_seq()[i]),
{
    reveal_strlit("apple");
    reveal_strlit("freebsd");
    reveal_strlit("linux-upstream");
    reveal_strlit("netbsd");
    reveal_strlit("openbsd");
    reveal_strlit("macos");
    reveal_strlit("darwin");
    reveal_strlit("bsd");
    reveal_strlit("linux");
    reveal_strlit("goat");
    let ks = builtin_keys();
    let vs = m.value_seq();
    let table = builtin_backends();
    assert(forall|j: int| 0 <= j < 5 ==> alias_seq(#[trigger] vs[j]) == table[j].2);
    let als = table[i].2;
    let t = choose|t: int| 0 <= t < als.len() && als[t] == a;
    assert(a.len() > 0);
    if ks.contains(a) {
        let j = choose|j: int| 0 <= j < ks.len() && ks[j] == a;
        assert(ks[j].len() == a.len() && ks[j][0] == a[0]);
        assert(j == i);
        assert(m.value_of(ks[j]) == Some(vs[j]));
    } else {
        lemma_key_position(ks, a);
        assert forall|j: int| 0 <= j < i implies !alias_seq(#[trigger] vs[j]).contains(a) by {
            if alias_seq(vs[j]).contains(a) {
                let u = choose|u: int| 0 <= u < table[j].2.len() && table[j].2[u] == a;
                assert(table[j].2[u].len() == a.len() && table[j].2[u][0] == a[0]);
            }
        }
        lemma_resolve_finds_alias(m, a, i);
    }
}

/// In a registry that holds exactly the built-in backends (as
/// `Config::defaults` writes it), each backend's name is its key and every
/// alias of a built-in backend resolves to that backend: no alias is shared
/// or shadowed by another backend's key.
pub proof fn lemma_builtin_aliases_resolve(m: BackendMap)
    requires
        holds_builtins_exactly(m),
        m.views_agree(),
    ensures
        forall|i: int| 0 <= i < 5 ==> (#[trigger] m.value_seq()[i]).name@ == m.key_seq()[i],
        forall|i: int, a: Seq<char>|
            0 <= i < 5 && #[trigger] alias_seq(m.value_seq()[i]).contains(a) ==> resolve_in(m, a) == Some(
                m.value_seq()[i],
            ),
{
    assert forall|i: int| 0 <= i < 5 implies (#[trigger] m.value_seq()[i]).name@ == m.key_seq()[i] by {
        assert(is_builtin(m.value_seq()[i], i));
    }
    assert forall|i: int, a: Seq<char>|
        0 <= i < 5 && #[trigger] alias_seq(m.value_seq()[i]).contains(a) implies resolve_in(m, a) == Some(
            m.value_seq()[i],
        ) by {
        lemma_builtin_alias_resolves(m, i, a);
    }
}

/// A backend with the alias found among the first `k` stays the first one
/// with that alias.
proof fn lemma_alias_index_prefix(defs: Seq<BackendDef>, name: Seq<char>, k: int)
    requires
        0 <= k <= defs.len(),
        alias_index(defs.take(k), name) is Some,
    ensures
        alias_index(defs, name) == alias_index(defs.take(k), name),
    decreases defs.len() - k,
{
    if k < defs.len() {
        assert(defs.take(k + 1).drop_last() == defs.take(k));
        assert(alias_index(defs.take(k + 1), name) == alias_index(defs.take(k), name));
        lemma_alias_index_prefix(defs, name, k + 1);
    } else {
        assert(defs.take(k) == defs);
    }
}

} // verus!
