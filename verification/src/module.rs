//! Modules loaded by a process, and the table of them keyed by name.

use vstd::prelude::*;
use crate::text::{from_utf8, lowercase, to_lowercase, trim_end, trim_end_char};

verus! {

/// A module loaded by a process: its (lower-case) name and base address.
#[derive(Debug, Clone)]
pub struct ModuleInfo {
    module_name: String,
    module_va: usize,
}

impl View for ModuleInfo {
    type V = (Seq<char>, usize);

    closed spec fn view(&self) -> (Seq<char>, usize) {
        (self.module_name@, self.module_va)
    }
}

impl ModuleInfo {
    /// A module named `module_name` (stored in lower case) loaded at `module_va`.
    pub fn new(module_name: &str, module_va: usize) -> (r: Self)
        ensures
            r@ == (lowercase(module_name@), module_va),
    {
        ModuleInfo { module_name: to_lowercase(module_name), module_va }
    }

    /// The module described by a module-snapshot entry: its name buffer
    /// (UTF-8, padded with NULs) and its base address.
    pub fn from_entry(sz_module: &[u8], mod_base_addr: usize) -> (r: Self)
        requires
            vstd::utf8::valid_utf8(sz_module@),
        ensures
            r@ == (lowercase(trim_end(vstd::utf8::decode_utf8(sz_module@), '\0')), mod_base_addr),
    {
        match from_utf8(sz_module) {
            Some(name) => {
                let trimmed = trim_end_char(name.as_str(), '\0');
                ModuleInfo::new(trimmed.as_str(), mod_base_addr)
            },
            None => {
                assert(false);
                ModuleInfo::new("", mod_base_addr)
            },
        }
    }

    /// A copy of this module record.
    pub fn duplicate(&self) -> (r: Self)
        ensures
            r@ == self@,
    {
        ModuleInfo { module_name: self.module_name.clone(), module_va: self.module_va }
    }

    /// The module's name.
    pub fn get_mod_name(&self) -> (r: &str)
        ensures
            r@ == self@.0,
    {
        self.module_name.as_str()
    }

    /// The module's base address.
    pub fn get_mod_va(&self) -> (r: &usize)
        ensures
            *r == self@.1,
    {
        &self.module_va
    }
}

/// The table built from a list of modules: each module under the lower-case
/// form of its name, a later module replacing an earlier one of that name.
pub open spec fn modules_map(list: Seq<(Seq<char>, usize)>) -> Map<Seq<char>, (Seq<char>, usize)>
    decreases list.len(),
{
    if list.len() == 0 {
        Map::empty()
    } else {
        modules_map(list.drop_last()).insert(lowercase(list.last().0), list.last())
    }
}

/// Modules keyed by name; no name occurs twice.
pub struct ModuleMap {
    keys: Vec<String>,
    values: Vec<ModuleInfo>,
}

impl View for ModuleMap {
    type V = Map<Seq<char>, (Seq<char>, usize)>;

    closed spec fn view(&self) -> Map<Seq<char>, (Seq<char>, usize)> {
        Map::new(
            |k: Seq<char>| exists|i: int| 0 <= i < self.keys@.len() && self.keys@[i]@ == k,
            |k: Seq<char>|
                self.values@[choose|i: int| 0 <= i < self.keys@.len() && self.keys@[i]@ == k]@,
        )
    }
}

impl ModuleMap {
    pub closed spec fn wf(&self) -> bool {
        &&& self.keys@.len() == self.values@.len()
        &&& forall|i: int, j: int|
            0 <= i < self.keys@.len() && 0 <= j < self.keys@.len() && i != j ==> self.keys@[i]@
                != self.keys@[j]@
    }

    /// An empty table.
    pub fn new() -> (r: Self)
        ensures
            r.wf(),
            r@ == Map::<Seq<char>, (Seq<char>, usize)>::empty(),
    {
        let r = ModuleMap { keys: Vec::new(), values: Vec::new() };
        assert(r@ =~= Map::<Seq<char>, (Seq<char>, usize)>::empty());
        r
    }

    /// Index of the entry stored under `key`, if any.
    fn position(&self, key: &String) -> (r: Option<usize>)
        requires
            self.wf(),
        ensures
            match r {
                Some(i) => i < self.keys@.len() && self.keys@[i as int]@ == key@,
                None => forall|i: int| 0 <= i < self.keys@.len() ==> self.keys@[i]@ != key@,
            },
    {
        let mut i: usize = 0;
        while i < self.keys.len()
            invariant
                i <= self.keys@.len(),
                forall|j: int| 0 <= j < i ==> self.keys@[j]@ != key@,
            decreases self.keys.len() - i,
        {
            if self.keys[i] == *key {
                return Some(i);
            }
            i = i + 1;
        }
        None
    }

    /// Stores `value` under `key`, replacing what was stored there.
    pub fn insert(&mut self, key: String, value: ModuleInfo)
        requires
            old(self).wf(),
        ensures
            final(self).wf(),
            final(self)@ == old(self)@.insert(key@, value@),
    {
        let ghost old_self = *self;
        match self.position(&key) {
            Some(i) => {
                self.values.set(i, value);
                proof {
                    assert forall|k: Seq<char>| #[trigger] self@.dom().contains(k) == old_self@.insert(key@, value@).dom().contains(k) by {
                        if old_self@.insert(key@, value@).dom().contains(k) && k != key@ {
                            let j = choose|j: int| 0 <= j < old_self.keys@.len() && old_self.keys@[j]@ == k;
                            assert(self.keys@[j]@ == k);
                        }
                        if k == key@ {
                            assert(self.keys@[i as int]@ == k);
                        }
                    }
                    assert forall|k: Seq<char>| #[trigger] self@.dom().contains(k) implies self@[k] == old_self@.insert(key@, value@)[k] by {
                        let j = choose|j: int| 0 <= j < self.keys@.len() && self.keys@[j]@ == k;
                        if k == key@ {
                            assert(j == i);
                        } else {
                            assert(old_self.keys@[j]@ == k);
                            let j2 = choose|j2: int| 0 <= j2 < old_self.keys@.len() && old_self.keys@[j2]@ == k;
                            assert(j2 == j);
                        }
                    }
                    assert(self@ =~= old_self@.insert(key@, value@));
                }
            },
            None => {
                self.keys.push(key);
                self.values.push(value);
                proof {
                    let n = old_self.keys@.len() as int;
                    assert(self.keys@[n]@ == key@);
                    assert forall|k: Seq<char>| #[trigger] self@.dom().contains(k) == old_self@.insert(key@, value@).dom().contains(k) by {
                        if old_self@.insert(key@, value@).dom().contains(k) && k != key@ {
                            let j = choose|j: int| 0 <= j < old_self.keys@.len() && old_self.keys@[j]@ == k;
                            assert(self.keys@[j]@ == k);
                        }
                        if self@.dom().contains(k) && k != key@ {
                            let j = choose|j: int| 0 <= j < self.keys@.len() && self.keys@[j]@ == k;
                            assert(j != n);
                            assert(old_self.keys@[j]@ == k);
                        }
                    }
                    assert forall|k: Seq<char>| #[trigger] self@.dom().contains(k) implies self@[k] == old_self@.insert(key@, value@)[k] by {
                        let j = choose|j: int| 0 <= j < self.keys@.len() && self.keys@[j]@ == k;
                        if k == key@ {
                            assert(j == n);
                        } else {
                            assert(j != n);
                            assert(old_self.keys@[j]@ == k);
                            let j2 = choose|j2: int| 0 <= j2 < old_self.keys@.len() && old_self.keys@[j2]@ == k;
                            assert(j2 == j);
                        }
                    }
                    assert(self@ =~= old_self@.insert(key@, value@));
                }
            },
        }
    }

    /// The module stored under `name`, if any.
    pub fn get(&self, name: &str) -> (r: Option<&ModuleInfo>)
        requires
            self.wf(),
        ensures
            match r {
                Some(m) => self@.contains_key(name@) && m@ == self@[name@],
                None => !self@.contains_key(name@),
            },
    {
        let key = name.to_owned();
        match self.position(&key) {
            Some(i) => {
                proof {
                    let j = choose|j: int| 0 <= j < self.keys@.len() && self.keys@[j]@ == name@;
                    assert(j == i);
                }
                Some(&self.values[i])
            },
            None => None,
        }
    }
}

/// A name is in the table of a module list exactly when some module of the
/// list has it, in lower case.
pub proof fn law_module_names(list: Seq<(Seq<char>, usize)>, k: Seq<char>)
    ensures
        modules_map(list).contains_key(k) <==> exists|i: int|
            0 <= i < list.len() && lowercase(#[trigger] list[i].0) == k,
    decreases list.len(),
{
    if list.len() > 0 {
        let init = list.drop_last();
        let n = list.len() - 1;
        law_module_names(init, k);
        if exists|i: int| 0 <= i < init.len() && lowercase(#[trigger] init[i].0) == k {
            let i = choose|i: int| 0 <= i < init.len() && lowercase(#[trigger] init[i].0) == k;
            assert(list[i] == init[i]);
        }
        if exists|i: int| 0 <= i < list.len() && lowercase(#[trigger] list[i].0) == k {
            let i = choose|i: int| 0 <= i < list.len() && lowercase(#[trigger] list[i].0) == k;
            if i < n {
                assert(list[i] == init[i]);
            }
        }
    }
}

/// The table of a module list maps a name to the last module of the list
/// that has that name (in lower case): later modules replace earlier ones.
pub proof fn law_last_module_wins(list: Seq<(Seq<char>, usize)>, i: int)
    requires
        0 <= i < list.len(),
        forall|j: int| i < j < list.len() ==> lowercase(#[trigger] list[j].0) != lowercase(list[i].0),
    ensures
        modules_map(list).contains_key(lowercase(list[i].0)),
        modules_map(list)[lowercase(list[i].0)] == list[i],
    decreases list.len(),
{
    let n = list.len() - 1;
    if i < n {
        let init = list.drop_last();
        assert(init[i] == list[i]);
        assert forall|j: int| i < j < init.len() implies lowercase(#[trigger] init[j].0) != lowercase(init[i].0) by {
            assert(init[j] == list[j]);
        }
        law_last_module_wins(init, i);
        assert(lowercase(list[n].0) != lowercase(list[i].0));
    }
}

/// Builds the table of a process's modules, as `HashMap::insert` would for
/// each module in turn under the lower-case form of its name.
pub fn modules_table(modules: Vec<ModuleInfo>) -> (r: ModuleMap)
    ensures
        r.wf(),
        r@ == modules_map(modules@.map_values(|m: ModuleInfo| m@)),
{
    let mut table = ModuleMap::new();
    let mut i: usize = 0;
    let ghost list = modules@.map_values(|m: ModuleInfo| m@);
    while i < modules.len()
        invariant
            i <= modules@.len(),
            list == modules@.map_values(|m: ModuleInfo| m@),
            table.wf(),
            table@ == modules_map(list.take(i as int)),
        decreases modules.len() - i,
    {
        let m = modules[i].duplicate();
        let key = to_lowercase(m.get_mod_name());
        assert(list.take(i + 1).drop_last() =~= list.take(i as int));
        table.insert(key, m);
        i = i + 1;
    }
    assert(list.take(modules@.len() as int) =~= list);
    table
}

} // verus!
