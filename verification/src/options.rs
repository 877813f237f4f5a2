//! Option values and option maps.
//!
//! A source declaration carries an ordered list of string-keyed options
//! ([`StmtOption`]). Connection construction works over a map from config
//! keys to [`StringOrSecret`] values ([`ConnOptions`]), which keeps its
//! entries as an association list with unique keys.

use vstd::prelude::*;

verus! {

/// A stable identifier for a catalog object, here used for secrets and for
/// the custom type names of envelope records.
#[derive(Clone, Copy, Debug, PartialEq, Eq, Hash, Structural)]
pub enum GlobalId {
    User(u64),
    System(u64),
    Transient(u64),
}

/// A value that is either a literal string or a handle to a secret.
///
/// Purification never materializes secrets; they stay handles until a live
/// client is built by the driver.
#[derive(Clone, Debug, PartialEq, Eq)]
pub enum StringOrSecret {
    Plain(String),
    Secret(GlobalId),
}

/// The mathematical value of a [`StringOrSecret`].
pub enum StringOrSecretView {
    Plain(Seq<char>),
    Secret(GlobalId),
}

impl View for StringOrSecret {
    type V = StringOrSecretView;

    open spec fn view(&self) -> StringOrSecretView {
        match self {
            StringOrSecret::Plain(s) => StringOrSecretView::Plain(s@),
            StringOrSecret::Secret(id) => StringOrSecretView::Secret(*id),
        }
    }
}

impl StringOrSecret {
    /// Asserts that this value is a literal string and returns its contents.
    pub fn unwrap_string(&self) -> (r: &str)
        requires
            self@ is Plain,
        ensures
            r@ == self@->Plain_0,
    {
        match self {
            StringOrSecret::Plain(s) => s.as_str(),
            StringOrSecret::Secret(_) => unreached(),
        }
    }

    /// A copy holding the same value.
    pub fn clone_value(&self) -> (r: StringOrSecret)
        ensures
            r@ == self@,
    {
        match self {
            StringOrSecret::Plain(s) => StringOrSecret::Plain(s.clone()),
            StringOrSecret::Secret(id) => StringOrSecret::Secret(*id),
        }
    }

    /// Asserts that this value is a secret handle and returns it.
    pub fn unwrap_secret(&self) -> (r: GlobalId)
        requires
            self@ is Secret,
        ensures
            r == self@->Secret_0,
    {
        match self {
            StringOrSecret::Plain(_) => unreached(),
            StringOrSecret::Secret(id) => *id,
        }
    }
}

/// The value of one statement-level option.
#[derive(Clone, Debug, PartialEq, Eq)]
pub enum OptionValue {
    Text(String),
    Num(i64),
    Secret(GlobalId),
    NumArray(Vec<i64>),
}

/// The mathematical value of an [`OptionValue`].
pub enum OptionValueView {
    Text(Seq<char>),
    Num(i64),
    Secret(GlobalId),
    NumArray(Seq<i64>),
}

impl View for OptionValue {
    type V = OptionValueView;

    open spec fn view(&self) -> OptionValueView {
        match self {
            OptionValue::Text(s) => OptionValueView::Text(s@),
            OptionValue::Num(n) => OptionValueView::Num(*n),
            OptionValue::Secret(id) => OptionValueView::Secret(*id),
            OptionValue::NumArray(ns) => OptionValueView::NumArray(ns@),
        }
    }
}

impl OptionValue {
    /// A copy holding the same value.
    pub fn clone_value(&self) -> (r: OptionValue)
        ensures
            r@ == self@,
    {
        match self {
            OptionValue::Text(s) => OptionValue::Text(s.clone()),
            OptionValue::Num(n) => OptionValue::Num(*n),
            OptionValue::Secret(id) => OptionValue::Secret(*id),
            OptionValue::NumArray(ns) => {
                let mut out: Vec<i64> = Vec::new();
                let mut i: usize = 0;
                while i < ns.len()
                    invariant
                        0 <= i <= ns@.len(),
                        out@ == ns@.take(i as int),
                    decreases ns@.len() - i,
                {
                    out.push(ns[i]);
                    proof {
                        assert(ns@.take(i + 1) =~= ns@.take(i as int).push(ns@[i as int]));
                    }
                    i += 1;
                }
                proof {
                    assert(ns@.take(ns@.len() as int) =~= ns@);
                }
                OptionValue::NumArray(out)
            },
        }
    }
}

/// One `WITH (...)` entry of a source declaration.
#[derive(Clone, Debug, PartialEq, Eq)]
pub struct StmtOption {
    pub key: String,
    pub value: OptionValue,
}

impl StmtOption {
    /// A copy holding the same value.
    pub fn clone_value(&self) -> (r: StmtOption)
        ensures
            r@ == self@,
    {
        StmtOption { key: self.key.clone(), value: self.value.clone_value() }
    }
}

/// The mathematical value of a [`StmtOption`].
pub struct StmtOptionView {
    pub key: Seq<char>,
    pub value: OptionValueView,
}

impl View for StmtOption {
    type V = StmtOptionView;

    open spec fn view(&self) -> StmtOptionView {
        StmtOptionView { key: self.key@, value: self.value@ }
    }
}

/// Whether a statement-option list holds the given key.
pub open spec fn stmt_has_key(opts: Seq<StmtOptionView>, key: Seq<char>) -> bool {
    exists|i: int| 0 <= i < opts.len() && opts[i].key == key
}

/// The value under the given key, front-most entry first.
pub open spec fn stmt_get(opts: Seq<StmtOptionView>, key: Seq<char>) -> Option<OptionValueView>
    decreases opts.len(),
{
    if opts.len() == 0 {
        None
    } else if opts[0].key == key {
        Some(opts[0].value)
    } else {
        stmt_get(opts.drop_first(), key)
    }
}

/// `stmt_get` finds a value exactly when the key is present.
pub proof fn lemma_stmt_get_some(opts: Seq<StmtOptionView>, key: Seq<char>)
    ensures
        stmt_get(opts, key) is Some <==> stmt_has_key(opts, key),
    decreases opts.len(),
{
    if opts.len() > 0 {
        if opts[0].key == key {
        } else {
            lemma_stmt_get_some(opts.drop_first(), key);
            assert(stmt_has_key(opts.drop_first(), key) ==> stmt_has_key(opts, key)) by {
                if stmt_has_key(opts.drop_first(), key) {
                    let i = choose|i: int|
                        0 <= i < opts.drop_first().len() && opts.drop_first()[i].key == key;
                    assert(opts[i + 1].key == key);
                }
            }
            assert(stmt_has_key(opts, key) ==> stmt_has_key(opts.drop_first(), key)) by {
                if stmt_has_key(opts, key) {
                    let i = choose|i: int| 0 <= i < opts.len() && opts[i].key == key;
                    assert(opts.drop_first()[i - 1].key == key);
                }
            }
        }
    }
}

/// Looks up a statement option by key.
pub fn find_option<'a>(opts: &'a Vec<StmtOption>, key: &str) -> (r: Option<&'a OptionValue>)
    ensures
        match r {
            Some(v) => stmt_get(opts@.map_values(|o: StmtOption| o@), key@) == Some(v@),
            None => !stmt_has_key(opts@.map_values(|o: StmtOption| o@), key@),
        },
{
    let ghost view = opts@.map_values(|o: StmtOption| o@);
    proof {
        assert(view.skip(0) =~= view);
    }
    let mut i: usize = 0;
    while i < opts.len()
        invariant
            0 <= i <= opts.len(),
            view == opts@.map_values(|o: StmtOption| o@),
            stmt_get(view, key@) == stmt_get(view.skip(i as int), key@),
        decreases opts.len() - i,
    {
        let o = &opts[i];
        if crate::strutil::str_eq(o.key.as_str(), key) {
            proof {
                assert(view.skip(i as int)[0] == view[i as int]);
                assert(stmt_get(view.skip(i as int), key@) == Some(view[i as int].value));
            }
            return Some(&o.value);
        }
        proof {
            assert(view.skip(i as int)[0] == view[i as int]);
            assert(view.skip(i as int).drop_first() =~= view.skip(i + 1));
        }
        i += 1;
    }
    proof {
        assert(view.skip(opts@.len() as int) =~= Seq::<StmtOptionView>::empty());
        lemma_stmt_get_some(view, key@);
    }
    None
}

/// Checks that no option key is given twice.
///
/// Returns the first duplicated key as an error, and `Ok` exactly when all
/// keys are distinct.
pub fn check_unique_keys(opts: &Vec<StmtOption>) -> (r: Result<(), crate::errors::PurifyError>)
    ensures
        match r {
            Ok(()) => forall|i: int, j: int|
                0 <= i < j < opts@.len() ==> opts@[i]@.key != opts@[j]@.key,
            Err(e) => e is DuplicateOption && exists|i: int, j: int|
                0 <= i < j < opts@.len() && opts@[i]@.key == opts@[j]@.key,
        },
{
    let mut i: usize = 0;
    while i < opts.len()
        invariant
            0 <= i <= opts.len(),
            forall|a: int, b: int| 0 <= a < b < i ==> opts@[a]@.key != opts@[b]@.key,
            forall|a: int, b: int|
                0 <= a < i && a < b < opts@.len() ==> opts@[a]@.key != opts@[b]@.key,
        decreases opts.len() - i,
    {
        let mut j: usize = i + 1;
        while j < opts.len()
            invariant
                0 <= i < j <= opts.len(),
                forall|b: int| i < b < j ==> opts@[i as int]@.key != opts@[b]@.key,
            decreases opts.len() - j,
        {
            if crate::strutil::str_eq(opts[i].key.as_str(), opts[j].key.as_str()) {
                return Err(crate::errors::PurifyError::DuplicateOption {
                    key: opts[i].key.clone(),
                });
            }
            j += 1;
        }
        i += 1;
    }
    Ok(())
}

/// One entry of a connection-option map.
#[derive(Clone, Debug, PartialEq, Eq)]
pub struct ConnOption {
    pub key: String,
    pub value: StringOrSecret,
}

/// The value under the given key in an association list.
pub open spec fn assoc_get(
    s: Seq<(Seq<char>, StringOrSecretView)>,
    key: Seq<char>,
) -> Option<StringOrSecretView>
    decreases s.len(),
{
    if s.len() == 0 {
        None
    } else if s[0].0 == key {
        Some(s[0].1)
    } else {
        assoc_get(s.drop_first(), key)
    }
}

/// An ordered map from config keys to string-or-secret values.
///
/// Entries keep their insertion order and keys are unique.
#[derive(Clone, Debug, PartialEq, Eq)]
pub struct ConnOptions {
    entries: Vec<ConnOption>,
}

impl View for ConnOptions {
    type V = Seq<(Seq<char>, StringOrSecretView)>;

    closed spec fn view(&self) -> Seq<(Seq<char>, StringOrSecretView)> {
        self.entries@.map_values(|e: ConnOption| (e.key@, e.value@))
    }
}

impl ConnOptions {
    /// Keys are unique.
    pub open spec fn wf(&self) -> bool {
        forall|i: int, j: int| 0 <= i < j < self@.len() ==> (#[trigger] self@[i]).0 != (#[trigger] self@[j]).0
    }

    /// The value stored under `key`, if any.
    pub open spec fn spec_get(&self, key: Seq<char>) -> Option<StringOrSecretView> {
        assoc_get(self@, key)
    }

    /// An empty map.
    pub fn new() -> (r: ConnOptions)
        ensures
            r@ =~= Seq::<(Seq<char>, StringOrSecretView)>::empty(),
            r.wf(),
    {
        ConnOptions { entries: Vec::new() }
    }

    /// The number of entries.
    pub fn len(&self) -> (n: usize)
        ensures
            n == self@.len(),
    {
        self.entries.len()
    }

    /// The entry at a position, for iteration.
    pub fn entry_at(&self, i: usize) -> (e: &ConnOption)
        requires
            i < self@.len(),
        ensures
            (e.key@, e.value@) == self@[i as int],
    {
        &self.entries[i]
    }

    /// Looks a key up.
    pub fn get(&self, key: &str) -> (r: Option<&StringOrSecret>)
        ensures
            match r {
                Some(v) => self.spec_get(key@) == Some(v@),
                None => self.spec_get(key@) is None,
            },
    {
        let ghost view = self@;
        proof {
            assert(view.skip(0) =~= view);
        }
        let mut i: usize = 0;
        while i < self.entries.len()
            invariant
                0 <= i <= self.entries.len(),
                view == self@,
                assoc_get(view, key@) == assoc_get(view.skip(i as int), key@),
            decreases self.entries.len() - i,
        {
            let e = &self.entries[i];
            if crate::strutil::str_eq(e.key.as_str(), key) {
                proof {
                    assert(view.skip(i as int)[0] == view[i as int]);
                }
                return Some(&e.value);
            }
            proof {
                assert(view.skip(i as int)[0] == view[i as int]);
                assert(view.skip(i as int).drop_first() =~= view.skip(i + 1));
            }
            i += 1;
        }
        proof {
            assert(view.skip(self.entries@.len() as int)
                =~= Seq::<(Seq<char>, StringOrSecretView)>::empty());
        }
        None
    }

    /// Whether the map holds the key.
    pub fn contains_key(&self, key: &str) -> (r: bool)
        ensures
            r == (self.spec_get(key@) is Some),
    {
        self.get(key).is_some()
    }

    /// Inserts a value, replacing any value the key already had.
    pub fn insert(&mut self, key: String, value: StringOrSecret)
        requires
            old(self).wf(),
        ensures
            final(self).wf(),
            final(self).spec_get(key@) == Some(value@),
            forall|k: Seq<char>|
                #![trigger final(self).spec_get(k)]
                #![trigger old(self).spec_get(k)]
                k != key@ ==> final(self).spec_get(k) == old(self).spec_get(k),
    {
        let ghost old_view = self@;
        let mut i: usize = 0;
        while i < self.entries.len()
            invariant
                0 <= i <= self.entries.len(),
                old_view == self@,
                old(self).wf(),
                self@ == old(self)@,
                forall|j: int| 0 <= j < i ==> (#[trigger] self@[j]).0 != key@,
            decreases self.entries.len() - i,
        {
            let found = crate::strutil::str_eq(self.entries[i].key.as_str(), key.as_str());
            if found {
                let ghost idx = i as int;
                self.entries.remove(i);
                self.entries.insert(i, ConnOption { key, value });
                proof {
                    assert(self@ =~= old_view.update(idx, (old_view[idx].0, value@)));
                    lemma_assoc_update(old_view, idx, value@);
                    assert forall|a: int, b: int| 0 <= a < b < self@.len()
                        implies (#[trigger] self@[a]).0 != (#[trigger] self@[b]).0 by {
                        assert(self@[a].0 == old_view[a].0 && self@[b].0 == old_view[b].0);
                    }
                }
                return;
            }
            i += 1;
        }
        let ghost key_view = key@;
        self.entries.push(ConnOption { key, value });
        proof {
            assert(self@ =~= old_view.push((key_view, value@)));
            lemma_assoc_push(old_view, key_view, value@);
            assert forall|a: int, b: int| 0 <= a < b < self@.len()
                implies (#[trigger] self@[a]).0 != (#[trigger] self@[b]).0 by {
                if b < old_view.len() {
                    assert(self@[a] == old_view[a] && self@[b] == old_view[b]);
                } else {
                    assert(self@[a] == old_view[a] && self@[b].0 == key_view);
                }
            }
        }
    }

    /// Removes a key and returns its value, if it was present.
    pub fn remove(&mut self, key: &str) -> (r: Option<StringOrSecret>)
        requires
            old(self).wf(),
        ensures
            final(self).wf(),
            final(self).spec_get(key@) is None,
            forall|k: Seq<char>|
                #![trigger final(self).spec_get(k)]
                #![trigger old(self).spec_get(k)]
                k != key@ ==> final(self).spec_get(k) == old(self).spec_get(k),
            match r {
                Some(v) => old(self).spec_get(key@) == Some(v@),
                None => old(self).spec_get(key@) is None,
            },
    {
        let ghost old_view = self@;
        let mut i: usize = 0;
        while i < self.entries.len()
            invariant
                0 <= i <= self.entries.len(),
                old_view == self@,
                old(self).wf(),
                self@ == old(self)@,
                forall|j: int| 0 <= j < i ==> (#[trigger] self@[j]).0 != key@,
            decreases self.entries.len() - i,
        {
            let found = crate::strutil::str_eq(self.entries[i].key.as_str(), key);
            if found {
                let ghost idx = i as int;
                let e = self.entries.remove(i);
                proof {
                    assert(self@ =~= old_view.remove(idx));
                    lemma_assoc_remove(old_view, idx);
                    lemma_assoc_get_at(old_view, idx);
                }
                return Some(e.value);
            }
            i += 1;
        }
        proof {
            lemma_assoc_absent(old_view, key@);
        }
        None
    }
}

/// The first entry holding a key decides its value.
proof fn lemma_assoc_get_at(s: Seq<(Seq<char>, StringOrSecretView)>, i: int)
    requires
        0 <= i < s.len(),
        forall|j: int| 0 <= j < i ==> (#[trigger] s[j]).0 != s[i].0,
    ensures
        assoc_get(s, s[i].0) == Some(s[i].1),
    decreases i,
{
    if i > 0 {
        assert forall|j: int| 0 <= j < i - 1 implies (#[trigger] s.drop_first()[j]).0
            != s.drop_first()[i - 1].0 by {
            assert(s.drop_first()[j] == s[j + 1]);
            assert(s.drop_first()[i - 1] == s[i]);
        }
        assert(s.drop_first()[i - 1] == s[i]);
        lemma_assoc_get_at(s.drop_first(), i - 1);
        assert(s[0].0 != s[i].0);
    }
}

/// In a well-formed list, updating position `i` in place changes only that key.
proof fn lemma_assoc_update(
    s: Seq<(Seq<char>, StringOrSecretView)>,
    i: int,
    v: StringOrSecretView,
)
    requires
        0 <= i < s.len(),
        forall|a: int, b: int| 0 <= a < b < s.len() ==> (#[trigger] s[a]).0 != (#[trigger] s[b]).0,
    ensures
        assoc_get(s.update(i, (s[i].0, v)), s[i].0) == Some(v),
        forall|k: Seq<char>| k != s[i].0 ==> assoc_get(s.update(i, (s[i].0, v)), k) == assoc_get(s, k),
    decreases s.len(),
{
    let t = s.update(i, (s[i].0, v));
    if i == 0 {
        assert(t[0] == (s[0].0, v));
        assert(t.drop_first() =~= s.drop_first());
        assert forall|k: Seq<char>| k != s[0].0 implies assoc_get(t, k) == assoc_get(s, k) by {
            assert(assoc_get(t, k) == assoc_get(t.drop_first(), k));
            assert(assoc_get(s, k) == assoc_get(s.drop_first(), k));
        }
    } else {
        assert(t[0] == s[0]);
        assert(s[0].0 != s[i].0);
        let sd = s.drop_first();
        assert(sd[i - 1] == s[i]);
        assert(t.drop_first() =~= sd.update(i - 1, (sd[i - 1].0, v)));
        assert forall|a: int, b: int| 0 <= a < b < sd.len()
            implies (#[trigger] sd[a]).0 != (#[trigger] sd[b]).0 by {
            assert(sd[a] == s[a + 1] && sd[b] == s[b + 1]);
        }
        lemma_assoc_update(sd, i - 1, v);
        assert(assoc_get(t, s[i].0) == assoc_get(t.drop_first(), s[i].0));
        assert forall|k: Seq<char>| k != s[i].0 implies assoc_get(t, k) == assoc_get(s, k) by {
            if k == s[0].0 {
                assert(assoc_get(t, k) == Some(t[0].1));
                assert(assoc_get(s, k) == Some(s[0].1));
            } else {
                assert(assoc_get(t, k) == assoc_get(t.drop_first(), k));
                assert(assoc_get(s, k) == assoc_get(sd, k));
            }
        }
    }
}

/// Pushing a fresh key onto a list keeps the other keys' values.
proof fn lemma_assoc_push(
    s: Seq<(Seq<char>, StringOrSecretView)>,
    key: Seq<char>,
    v: StringOrSecretView,
)
    requires
        forall|j: int| 0 <= j < s.len() ==> (#[trigger] s[j]).0 != key,
    ensures
        assoc_get(s.push((key, v)), key) == Some(v),
        forall|k: Seq<char>| k != key ==> assoc_get(s.push((key, v)), k) == assoc_get(s, k),
    decreases s.len(),
{
    let t = s.push((key, v));
    if s.len() == 0 {
        assert(t[0] == (key, v));
        assert(t.drop_first() =~= Seq::<(Seq<char>, StringOrSecretView)>::empty());
        assert forall|k: Seq<char>| k != key implies assoc_get(t, k) == assoc_get(s, k) by {
            assert(assoc_get(t, k) == assoc_get(t.drop_first(), k));
        }
    } else {
        assert(t[0] == s[0]);
        assert(s[0].0 != key);
        let sd = s.drop_first();
        assert(t.drop_first() =~= sd.push((key, v)));
        assert forall|j: int| 0 <= j < sd.len() implies (#[trigger] sd[j]).0 != key by {
            assert(sd[j] == s[j + 1]);
        }
        lemma_assoc_push(sd, key, v);
        assert(assoc_get(t, key) == assoc_get(t.drop_first(), key));
        assert forall|k: Seq<char>| k != key implies assoc_get(t, k) == assoc_get(s, k) by {
            if k == s[0].0 {
                assert(assoc_get(t, k) == Some(t[0].1));
                assert(assoc_get(s, k) == Some(s[0].1));
            } else {
                assert(assoc_get(t, k) == assoc_get(t.drop_first(), k));
                assert(assoc_get(s, k) == assoc_get(sd, k));
            }
        }
    }
}

/// Removing position `i` from a well-formed list removes exactly that key.
proof fn lemma_assoc_remove(s: Seq<(Seq<char>, StringOrSecretView)>, i: int)
    requires
        0 <= i < s.len(),
        forall|a: int, b: int| 0 <= a < b < s.len() ==> (#[trigger] s[a]).0 != (#[trigger] s[b]).0,
    ensures
        forall|a: int, b: int|
            0 <= a < b < s.remove(i).len()
                ==> (#[trigger] s.remove(i)[a]).0 != (#[trigger] s.remove(i)[b]).0,
        assoc_get(s.remove(i), s[i].0) is None,
        forall|k: Seq<char>| k != s[i].0 ==> assoc_get(s.remove(i), k) == assoc_get(s, k),
    decreases s.len(),
{
    let t = s.remove(i);
    assert forall|a: int, b: int| 0 <= a < b < t.len()
        implies (#[trigger] t[a]).0 != (#[trigger] t[b]).0 by {
        let a0 = if a < i { a } else { a + 1 };
        let b0 = if b < i { b } else { b + 1 };
        assert(t[a] == s[a0] && t[b] == s[b0]);
    }
    if i == 0 {
        assert(t =~= s.drop_first());
        assert forall|j: int| 0 <= j < t.len() implies (#[trigger] t[j]).0 != s[0].0 by {
            assert(t[j] == s[j + 1]);
        }
        lemma_assoc_absent(t, s[0].0);
        assert forall|k: Seq<char>| k != s[0].0 implies assoc_get(t, k) == assoc_get(s, k) by {
            assert(assoc_get(s, k) == assoc_get(s.drop_first(), k));
        }
    } else {
        assert(t[0] == s[0]);
        assert(s[0].0 != s[i].0);
        let sd = s.drop_first();
        assert(sd[i - 1] == s[i]);
        assert(t.drop_first() =~= sd.remove(i - 1));
        assert forall|a: int, b: int| 0 <= a < b < sd.len()
            implies (#[trigger] sd[a]).0 != (#[trigger] sd[b]).0 by {
            assert(sd[a] == s[a + 1] && sd[b] == s[b + 1]);
        }
        lemma_assoc_remove(sd, i - 1);
        assert(assoc_get(t, s[i].0) == assoc_get(t.drop_first(), s[i].0));
        assert forall|k: Seq<char>| k != s[i].0 implies assoc_get(t, k) == assoc_get(s, k) by {
            if k == s[0].0 {
                assert(assoc_get(t, k) == Some(t[0].1));
                assert(assoc_get(s, k) == Some(s[0].1));
            } else {
                assert(assoc_get(t, k) == assoc_get(t.drop_first(), k));
                assert(assoc_get(s, k) == assoc_get(sd, k));
            }
        }
    }
}

/// A key that appears in no entry has no value.
proof fn lemma_assoc_absent(s: Seq<(Seq<char>, StringOrSecretView)>, key: Seq<char>)
    requires
        forall|j: int| 0 <= j < s.len() ==> (#[trigger] s[j]).0 != key,
    ensures
        assoc_get(s, key) is None,
    decreases s.len(),
{
    if s.len() > 0 {
        assert(s.drop_first() =~= s.skip(1));
        assert forall|j: int| 0 <= j < s.drop_first().len()
            implies (#[trigger] s.drop_first()[j]).0 != key by {
            assert(s.drop_first()[j] == s[j + 1]);
        }
        lemma_assoc_absent(s.drop_first(), key);
    }
}

} // verus!
