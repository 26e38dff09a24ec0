//! The compiler driver: the module-graph resolver and the type-parameter
//! instantiation registry.
//!
//! The driver owns the whole state of one compilation: the ordered list of
//! resolved file paths (whose indices are the `source` of every location),
//! the map from module path to parsed compilation unit, the queue of
//! modules still to load, and the registry that hands out collision-free
//! names for instantiated type parameters. Everything the driver decides —
//! which file candidates to try in which order, which module to load next,
//! that no module is ever parsed twice, which fresh name an instantiation
//! gets — is stated and verified here; reading files and running the
//! external parser stay outside, handing the driver plain values.

use vstd::prelude::*;
use vstd::seq_lib::group_seq_properties;
use crate::ast::ModulePath;
use crate::ast::Sect;
use crate::ast::Definition;
use crate::errors::CompilationError;
use crate::location::append_lit;
use crate::token::TypeVarName;

verus! {

/// A fresh name for one use-site instantiation of a generic type
/// parameter: the original name paired with a discriminator that is unique
/// across all modules compiled by one driver.
#[derive(Debug, PartialEq, Eq, Clone)]
pub struct InstantiatedTypeVariableName(pub TypeVarName, pub u32);

/// One entry of the instantiation log: where the instantiation happened,
/// which type variable it instantiated, and the fresh name it received.
#[derive(Debug, PartialEq, Eq)]
pub struct InstantiatedTypeParameter {
    pub sect: ModulePath,
    pub def: Definition,
    pub type_var: TypeVarName,
    pub instantiated: InstantiatedTypeVariableName,
}

impl InstantiatedTypeParameter {
    pub fn new(
        sect: ModulePath,
        def: Definition,
        tv: TypeVarName,
        instantiated: InstantiatedTypeVariableName,
    ) -> (r: InstantiatedTypeParameter)
        ensures
            r.sect == sect,
            r.def == def,
            r.type_var == tv,
            r.instantiated == instantiated,
    {
        InstantiatedTypeParameter { sect, def, type_var: tv, instantiated }
    }
}

/// The counter an association list holds for a type-variable name: 0 when
/// the name has no entry yet.
pub open spec fn index_counter(s: Seq<(TypeVarName, u32)>, tv: Seq<char>) -> u32
    decreases s.len(),
{
    if s.len() == 0 {
        0
    } else if s[0].0@ == tv {
        s[0].1
    } else {
        index_counter(s.drop_first(), tv)
    }
}

/// The queue with its already-loaded prefix dropped: the front modules
/// whose keys are in `loaded` are skipped, up to the first pending one.
pub open spec fn drop_loaded(loaded: Seq<Seq<char>>, q: Seq<ModulePath>) -> Seq<ModulePath>
    decreases q.len(),
{
    if q.len() == 0 {
        q
    } else if loaded.contains(q[0].0@) {
        drop_loaded(loaded, q.drop_first())
    } else {
        q
    }
}

/// The driver.
pub struct Compiler {
    pub path_prefixes: Vec<String>,
    pub sects: Vec<(ModulePath, Sect)>,
    pub paths: Vec<String>,
    pub type_parameter_instantiations: Vec<InstantiatedTypeParameter>,
    pub indices: Vec<(TypeVarName, u32)>,
    pub queue: Vec<ModulePath>,
}

impl Compiler {
    /// The keys of the module map, in insertion order.
    pub open spec fn spec_sect_keys(&self) -> Seq<Seq<char>> {
        self.sects@.map_values(|e: (ModulePath, Sect)| e.0.0@)
    }

    /// Whether a module is already recorded.
    pub open spec fn spec_loaded(&self, key: Seq<char>) -> bool {
        self.spec_sect_keys().contains(key)
    }

    /// The current counter of a type-variable name.
    pub open spec fn spec_counter(&self, tv: Seq<char>) -> u32 {
        index_counter(self.indices@, tv)
    }

    /// The driver's invariant: each module is recorded at most once, and
    /// the registry holds at most one counter per name.
    pub open spec fn wf(&self) -> bool {
        &&& self.spec_sect_keys().no_duplicates()
        &&& self.indices@.map_values(|e: (TypeVarName, u32)| e.0@).no_duplicates()
    }

    /// The driver's state that one scan of the module graph never touches.
    pub open spec fn same_registry(&self, other: &Compiler) -> bool {
        &&& self.path_prefixes@ == other.path_prefixes@
        &&& self.type_parameter_instantiations@ == other.type_parameter_instantiations@
        &&& self.indices@ == other.indices@
    }

    /// A fresh driver over an ordered list of search-path directories.
    pub fn new(path_prefixes: Vec<String>) -> (r: Compiler)
        ensures
            r.wf(),
            r.path_prefixes@ == path_prefixes@,
            r.sects@.len() == 0,
            r.paths@.len() == 0,
            r.type_parameter_instantiations@.len() == 0,
            r.indices@.len() == 0,
            r.queue@.len() == 0,
    {
        let r = Compiler {
            path_prefixes,
            sects: Vec::new(),
            paths: Vec::new(),
            type_parameter_instantiations: Vec::new(),
            indices: Vec::new(),
            queue: Vec::new(),
        };
        proof {
            assert(r.spec_sect_keys() =~= Seq::<Seq<char>>::empty());
            assert(r.indices@.map_values(|e: (TypeVarName, u32)| e.0@) =~= Seq::<
                Seq<char>,
            >::empty());
        }
        r
    }

    /// Whether a module is already recorded.
    pub fn is_loaded(&self, sect: &ModulePath) -> (r: bool)
        ensures
            r == self.spec_loaded(sect.0@),
    {
        let n = self.sects.len();
        let mut i: usize = 0;
        while i < n
            invariant
                i <= n == self.sects@.len(),
                forall|j: int| 0 <= j < i ==> self.spec_sect_keys()[j] != sect.0@,
            decreases n - i,
        {
            if self.sects[i].0 == *sect {
                assert(self.spec_sect_keys()[i as int] == sect.0@);
                return true;
            }
            i = i + 1;
        }
        proof {
            if self.spec_loaded(sect.0@) {
                let j = choose|j: int|
                    0 <= j < self.spec_sect_keys().len() && self.spec_sect_keys()[j] == sect.0@;
                assert(false);
            }
        }
        false
    }

    /// The parsed compilation unit recorded for a module, if any.
    pub fn get_sect(&self, sect: &ModulePath) -> (r: Option<&Sect>)
        ensures
            r is Some <==> self.spec_loaded(sect.0@),
            r matches Some(u) ==> exists|j: int|
                0 <= j < self.sects@.len() && self.sects@[j].0.0@ == sect.0@ && self.sects@[j].1
                    == *u,
    {
        let n = self.sects.len();
        let mut i: usize = 0;
        while i < n
            invariant
                i <= n == self.sects@.len(),
                forall|j: int| 0 <= j < i ==> self.spec_sect_keys()[j] != sect.0@,
            decreases n - i,
        {
            if self.sects[i].0 == *sect {
                assert(self.spec_sect_keys()[i as int] == sect.0@);
                return Some(&self.sects[i].1);
            }
            i = i + 1;
        }
        proof {
            if self.spec_loaded(sect.0@) {
                let j = choose|j: int|
                    0 <= j < self.spec_sect_keys().len() && self.spec_sect_keys()[j] == sect.0@;
                assert(false);
            }
        }
        None
    }

    /// How many modules are recorded.
    pub fn sect_count(&self) -> (n: usize)
        ensures
            n == self.sects@.len(),
    {
        self.sects.len()
    }

    /// Appends a resolved file path to the ordered path list and hands back
    /// its index, the source id used for every location scanned from that
    /// file.
    pub fn register_source(&mut self, path: String) -> (id: usize)
        ensures
            id == old(self).paths@.len(),
            final(self).paths@ == old(self).paths@.push(path),
            final(self).sects@ == old(self).sects@,
            final(self).queue@ == old(self).queue@,
            final(self).same_registry(old(self)),
            final(self).wf() == old(self).wf(),
    {
        let id = self.paths.len();
        self.paths.push(path);
        id
    }

    /// Seeds the queue with the caller-supplied source identifiers, each
    /// converted to its module path.
    pub fn enqueue_sources(&mut self, sources: Vec<String>)
        ensures
            final(self).sects@ == old(self).sects@,
            final(self).paths@ == old(self).paths@,
            final(self).same_registry(old(self)),
            final(self).wf() == old(self).wf(),
            final(self).queue@.len() == old(self).queue@.len() + sources@.len(),
            final(self).queue@.take(old(self).queue@.len() as int) == old(self).queue@,
            forall|j: int|
                0 <= j < sources@.len() ==> final(self).queue@[old(self).queue@.len() + j].0@
                    == spec_strip_extension(sources.deep_view()[j]),
    {
        let ghost q0 = self.queue@;
        let ghost src0 = sources.deep_view();
        let n = sources.len();
        let mut i: usize = 0;
        while i < n
            invariant
                n == sources@.len(),
                i <= n,
                sources.deep_view() == src0,
                self.sects@ == old(self).sects@,
                self.paths@ == old(self).paths@,
                self.same_registry(old(self)),
                self.path_prefixes@ == old(self).path_prefixes@,
                self.type_parameter_instantiations@ == old(self).type_parameter_instantiations@,
                self.indices@ == old(self).indices@,
                self.queue@.len() == q0.len() + i,
                self.queue@.take(q0.len() as int) == q0,
                forall|j: int|
                    0 <= j < i ==> self.queue@[q0.len() + j].0@ == spec_strip_extension(src0[j]),
            decreases n - i,
        {
            let m = path_to_sect(&sources[i]);
            self.queue.push(m);
            proof {
                assert(self.queue@.take(q0.len() as int) =~= q0);
            }
            i = i + 1;
        }
    }

    /// Pops pending modules until one not yet recorded comes up, skipping
    /// every module that is already loaded; `None` once nothing pending is
    /// left. A module the driver has recorded is never handed out again.
    pub fn next_pending(&mut self) -> (r: Option<ModulePath>)
        ensures
            final(self).sects@ == old(self).sects@,
            final(self).paths@ == old(self).paths@,
            final(self).same_registry(old(self)),
            final(self).wf() == old(self).wf(),
            ({
                let rest = drop_loaded(old(self).spec_sect_keys(), old(self).queue@);
                if rest.len() == 0 {
                    &&& r is None
                    &&& final(self).queue@ == rest
                } else {
                    &&& r == Some(rest[0])
                    &&& !old(self).spec_loaded(rest[0].0@)
                    &&& final(self).queue@ == rest.drop_first()
                }
            }),
    {
        loop
            invariant
                self.sects@ == old(self).sects@,
                self.paths@ == old(self).paths@,
                self.same_registry(old(self)),
                self.path_prefixes@ == old(self).path_prefixes@,
                self.type_parameter_instantiations@ == old(self).type_parameter_instantiations@,
                self.indices@ == old(self).indices@,
                drop_loaded(old(self).spec_sect_keys(), old(self).queue@) == drop_loaded(
                    self.spec_sect_keys(),
                    self.queue@,
                ),
            decreases self.queue@.len(),
        {
            if self.queue.len() == 0 {
                return None;
            }
            let p = self.queue.remove(0);
            if !self.is_loaded(&p) {
                return Some(p);
            }
        }
    }

    /// Records a parsed compilation unit under its module path and queues
    /// every module its imports name. A module can be recorded only once.
    pub fn record_sect(&mut self, sect: ModulePath, parsed: Sect)
        requires
            old(self).wf(),
            !old(self).spec_loaded(sect.0@),
        ensures
            final(self).wf(),
            final(self).paths@ == old(self).paths@,
            final(self).same_registry(old(self)),
            final(self).sects@.len() == old(self).sects@.len() + 1,
            final(self).sects@.last().0.0@ == sect.0@,
            final(self).sects@.drop_last() == old(self).sects@,
            final(self).spec_loaded(sect.0@),
            final(self).queue@.len() == old(self).queue@.len() + parsed.uses@.len(),
            final(self).queue@.take(old(self).queue@.len() as int) == old(self).queue@,
            forall|j: int|
                0 <= j < parsed.uses@.len() ==> final(self).queue@[old(self).queue@.len() + j].0@
                    == parsed.uses@[j].sect.0@,
    {
        let ghost q0 = self.queue@;
        let ghost uses0 = parsed.uses@;
        let n = parsed.uses.len();
        let mut i: usize = 0;
        while i < n
            invariant
                n == uses0.len(),
                i <= n,
                parsed.uses@ == uses0,
                self.sects@ == old(self).sects@,
                self.paths@ == old(self).paths@,
                self.same_registry(old(self)),
                self.queue@.len() == q0.len() + i,
                self.queue@.take(q0.len() as int) == q0,
                forall|j: int| 0 <= j < i ==> self.queue@[q0.len() + j].0@ == uses0[j].sect.0@,
            decreases n - i,
        {
            let next = ModulePath(parsed.uses[i].sect.0.clone());
            self.queue.push(next);
            proof {
                assert(self.queue@.take(q0.len() as int) =~= q0);
            }
            i = i + 1;
        }
        let ghost keys0 = self.spec_sect_keys();
        self.sects.push((sect, parsed));
        proof {
            assert(self.spec_sect_keys() =~= keys0.push(self.sects@.last().0.0@));
            assert(self.sects@.drop_last() =~= old(self).sects@);
            broadcast use group_seq_properties;

            assert(self.spec_sect_keys().drop_last() =~= keys0);
            assert(self.spec_sect_keys().no_duplicates());
            assert(self.spec_sect_keys().contains(self.spec_sect_keys().last()));
            assert(self.indices@.map_values(|e: (TypeVarName, u32)| e.0@)
                == old(self).indices@.map_values(|e: (TypeVarName, u32)| e.0@));
        }
    }

    /// The candidate files for a module, in resolution order: first the
    /// module path rendered as a file path relative to the working
    /// directory, then that path under each search-path directory in
    /// order. The first candidate that is a regular file wins.
    pub fn candidate_paths(&self, sect: &ModulePath) -> (r: Vec<String>)
        ensures
            r@.len() == 1 + self.path_prefixes@.len(),
            r.deep_view()[0] == spec_sect_file(*sect),
            forall|i: int|
                0 <= i < self.path_prefixes@.len() ==> r.deep_view()[i + 1]
                    == self.path_prefixes@[i]@ + "/"@ + spec_sect_file(*sect),
    {
        let base = sect_file_name(sect);
        let mut r: Vec<String> = Vec::new();
        let mut first = String::new();
        first.append(base.as_str());
        r.push(first);
        let n = self.path_prefixes.len();
        let mut i: usize = 0;
        while i < n
            invariant
                n == self.path_prefixes@.len(),
                i <= n,
                base@ == spec_sect_file(*sect),
                r@.len() == 1 + i,
                r.deep_view()[0] == spec_sect_file(*sect),
                forall|j: int|
                    0 <= j < i ==> r.deep_view()[j + 1] == self.path_prefixes@[j]@ + "/"@
                        + spec_sect_file(*sect),
            decreases n - i,
        {
            let mut cand = String::new();
            cand.append(self.path_prefixes[i].as_str());
            append_lit(&mut cand, "/");
            cand.append(base.as_str());
            r.push(cand);
            i = i + 1;
        }
        r
    }

    /// Decides module resolution from the candidates' existence: the first
    /// candidate that exists wins; a module with no file behind any
    /// candidate is reported missing, by exactly its module path.
    pub fn resolve_from(
        &self,
        sect: ModulePath,
        candidates: &Vec<String>,
        exists: &Vec<bool>,
    ) -> (r: Result<String, CompilationError>)
        requires
            candidates@.len() == exists@.len(),
        ensures
            match r {
                Ok(path) => exists|i: int|
                    {
                        &&& 0 <= i < exists@.len()
                        &&& exists@[i]
                        &&& path@ == candidates.deep_view()[i]
                        &&& forall|j: int| 0 <= j < i ==> !exists@[j]
                    },
                Err(e) => {
                    &&& forall|i: int| 0 <= i < exists@.len() ==> !exists@[i]
                    &&& e matches CompilationError::ModuleNotFoundError(p)
                    &&& p.0@ == sect.0@
                },
            },
    {
        let n = candidates.len();
        let mut i: usize = 0;
        while i < n
            invariant
                n == candidates@.len() == exists@.len(),
                i <= n,
                forall|j: int| 0 <= j < i ==> !exists@[j],
            decreases n - i,
        {
            if exists[i] {
                let mut path = String::new();
                path.append(candidates[i].as_str());
                return Ok(path);
            }
            i = i + 1;
        }
        Err(CompilationError::ModuleNotFoundError(sect))
    }

    /// Allocates a fresh name for one instantiation of a type parameter:
    /// the original name with the next discriminator for that name, the
    /// counter shared across all modules this driver compiles. The
    /// instantiation is appended to the registry's log.
    pub fn instantiate_type_param(
        &mut self,
        sect: ModulePath,
        def: Definition,
        type_var: TypeVarName,
    ) -> (r: InstantiatedTypeVariableName)
        requires
            old(self).wf(),
            old(self).spec_counter(type_var@) < u32::MAX,
        ensures
            final(self).wf(),
            spec_instantiate_post(*old(self), *final(self), type_var@, r),
            final(self).sects@ == old(self).sects@,
            final(self).paths@ == old(self).paths@,
            final(self).queue@ == old(self).queue@,
            final(self).path_prefixes@ == old(self).path_prefixes@,
            ({
                let log = final(self).type_parameter_instantiations@;
                &&& log.len() == old(self).type_parameter_instantiations@.len() + 1
                &&& log.drop_last() == old(self).type_parameter_instantiations@
                &&& log.last().sect.0@ == sect.0@
                &&& log.last().def == def
                &&& log.last().type_var@ == type_var@
                &&& log.last().instantiated == r
            }),
    {
        let ghost ind0 = self.indices@;
        let n = self.indices.len();
        let mut i: usize = 0;
        let mut found = false;
        loop
            invariant_except_break
                n == self.indices@.len(),
                i <= n,
                self.indices@ == ind0,
                self.sects@ == old(self).sects@,
                self.paths@ == old(self).paths@,
                self.queue@ == old(self).queue@,
                self.path_prefixes@ == old(self).path_prefixes@,
                self.type_parameter_instantiations@ == old(self).type_parameter_instantiations@,
                !found,
                forall|j: int| 0 <= j < i ==> ind0[j].0@ != type_var@,
            ensures
                n == self.indices@.len(),
                i <= n,
                self.indices@ == ind0,
                self.sects@ == old(self).sects@,
                self.paths@ == old(self).paths@,
                self.queue@ == old(self).queue@,
                self.path_prefixes@ == old(self).path_prefixes@,
                self.type_parameter_instantiations@ == old(self).type_parameter_instantiations@,
                forall|j: int| 0 <= j < i ==> ind0[j].0@ != type_var@,
                found ==> i < n && ind0[i as int].0@ == type_var@,
                !found ==> i == n,
            decreases n - i,
        {
            if i >= n {
                break ;
            }
            if self.indices[i].0 == type_var {
                found = true;
                break ;
            }
            i = i + 1;
        }
        let idx: u32 = if found {
            {
                let c = self.indices[i].1;
                proof {
                    lemma_index_counter_at(ind0, i as int, type_var@);
                }
                let key = self.indices[i].0.clone();
                let updated = (key, c + 1);
                let old_entry = self.indices.remove(i);
                self.indices.insert(i, updated);
                proof {
                    assert(self.indices@ =~= ind0.update(i as int, updated));
                    lemma_index_counter_update(ind0, i as int, updated, type_var@);
                    assert(self.indices@.map_values(|e: (TypeVarName, u32)| e.0@) =~= ind0
                        .map_values(|e: (TypeVarName, u32)| e.0@));
                }
                c + 1
            }
        } else {
            proof {
                lemma_index_counter_absent(ind0, type_var@);
            }
            let key = type_var.clone();
            self.indices.push((key, 1));
            proof {
                let pushed = self.indices@.last();
                assert(self.indices@ =~= ind0.push(pushed));
                lemma_index_counter_pushed(ind0, pushed, type_var@);
                let keys = self.indices@.map_values(|e: (TypeVarName, u32)| e.0@);
                let keys0 = ind0.map_values(|e: (TypeVarName, u32)| e.0@);
                assert(keys.drop_last() =~= keys0);
                assert(keys.last() == type_var@);
                assert(!keys0.contains(type_var@)) by {
                    if keys0.contains(type_var@) {
                        let w = choose|w: int| 0 <= w < keys0.len() && keys0[w] == type_var@;
                        assert(ind0[w].0@ == type_var@);
                        assert(false);
                    }
                }
                assert forall|a: int, b: int|
                    0 <= a < keys.len() && 0 <= b < keys.len() && a != b implies keys[a]
                    != keys[b] by {
                    if a < keys.len() - 1 && b < keys.len() - 1 {
                        assert(keys0[a] == keys[a] && keys0[b] == keys[b]);
                    } else if a == keys.len() - 1 && b < keys.len() - 1 {
                        assert(keys0[b] == keys[b]);
                        assert(keys0.contains(keys0[b]) || true);
                        if keys[b] == type_var@ {
                            assert(keys0[b] == type_var@);
                            assert(keys0.contains(type_var@));
                        }
                    } else if b == keys.len() - 1 && a < keys.len() - 1 {
                        assert(keys0[a] == keys[a]);
                        if keys[a] == type_var@ {
                            assert(keys0[a] == type_var@);
                            assert(keys0.contains(type_var@));
                        }
                    }
                }
            }
            1
        };
        let new_name = InstantiatedTypeVariableName(type_var.clone(), idx);
        let returned = InstantiatedTypeVariableName(new_name.0.clone(), idx);
        let inst = InstantiatedTypeParameter::new(sect, def, type_var, new_name);
        self.type_parameter_instantiations.push(inst);
        proof {
            assert(self.type_parameter_instantiations@.drop_last() =~= old(
                self,
            ).type_parameter_instantiations@);
        }
        returned
    }
}

/// What one instantiation does to the registry: the returned name pairs
/// the original name with the incremented counter for it, and no other
/// name's counter moves.
pub open spec fn spec_instantiate_post(
    before: Compiler,
    after: Compiler,
    tv: Seq<char>,
    r: InstantiatedTypeVariableName,
) -> bool {
    &&& r.0@ == tv
    &&& r.1 == index_counter(before.indices@, tv) + 1
    &&& index_counter(after.indices@, tv) == index_counter(before.indices@, tv) + 1
    &&& forall|other: Seq<char>|
        other != tv ==> index_counter(after.indices@, other) == index_counter(
            before.indices@,
            other,
        )
}

/// Fresh-name uniqueness: two successive instantiations never hand out the
/// same name. Instantiating the same type variable twice gives the same
/// original name back with distinct discriminators; instantiating two
/// different type variables gives names that differ in the original name
/// itself.
pub proof fn lemma_fresh_names_unique(
    c0: Compiler,
    c1: Compiler,
    c2: Compiler,
    tv1: Seq<char>,
    tv2: Seq<char>,
    r1: InstantiatedTypeVariableName,
    r2: InstantiatedTypeVariableName,
)
    requires
        spec_instantiate_post(c0, c1, tv1, r1),
        spec_instantiate_post(c1, c2, tv2, r2),
    ensures
        r1.0@ != r2.0@ || r1.1 != r2.1,
        tv1 == tv2 ==> r1.0@ == r2.0@ && r1.1 != r2.1,
{
}

/// Each module is recorded at most once: the module map of a well-formed
/// driver holds no key twice.
pub proof fn lemma_module_recorded_at_most_once(c: Compiler, key: Seq<char>)
    requires
        c.wf(),
    ensures
        c.spec_sect_keys().to_multiset().count(key) <= 1,
{
    c.spec_sect_keys().lemma_multiset_has_no_duplicates();
}

proof fn lemma_index_counter_at(s: Seq<(TypeVarName, u32)>, i: int, tv: Seq<char>)
    requires
        0 <= i < s.len(),
        s[i].0@ == tv,
        forall|j: int| 0 <= j < i ==> s[j].0@ != tv,
    ensures
        index_counter(s, tv) == s[i].1,
    decreases i,
{
    if i > 0 {
        lemma_index_counter_at(s.drop_first(), i - 1, tv);
    }
}

proof fn lemma_index_counter_update(
    s: Seq<(TypeVarName, u32)>,
    i: int,
    e: (TypeVarName, u32),
    tv: Seq<char>,
)
    requires
        0 <= i < s.len(),
        s[i].0@ == tv,
        e.0@ == tv,
        forall|j: int| 0 <= j < i ==> s[j].0@ != tv,
    ensures
        index_counter(s.update(i, e), tv) == e.1,
        forall|other: Seq<char>|
            other != tv ==> index_counter(s.update(i, e), other) == index_counter(s, other),
    decreases s.len(),
{
    if i == 0 {
        assert(s.update(0, e)[0] == e);
        assert forall|other: Seq<char>| other != tv implies index_counter(s.update(0, e), other)
            == index_counter(s, other) by {
            assert(s.update(0, e).drop_first() =~= s.drop_first());
        }
    } else {
        lemma_index_counter_update(s.drop_first(), i - 1, e, tv);
        assert(s.update(i, e).drop_first() =~= s.drop_first().update(i - 1, e));
        assert(s.update(i, e)[0] == s[0]);
        assert forall|other: Seq<char>| other != tv implies index_counter(s.update(i, e), other)
            == index_counter(s, other) by {
            assert(s.update(i, e)[0] == s[0]);
            assert(s.update(i, e).drop_first() =~= s.drop_first().update(i - 1, e));
            if s[0].0@ != other {
                assert(index_counter(s.update(i, e), other) == index_counter(
                    s.drop_first().update(i - 1, e),
                    other,
                ));
                assert(index_counter(s, other) == index_counter(s.drop_first(), other));
            }
        }
    }
}

proof fn lemma_index_counter_absent(s: Seq<(TypeVarName, u32)>, tv: Seq<char>)
    requires
        forall|j: int| 0 <= j < s.len() ==> s[j].0@ != tv,
    ensures
        index_counter(s, tv) == 0,
    decreases s.len(),
{
    if s.len() > 0 {
        assert(forall|j: int|
            0 <= j < s.drop_first().len() ==> s.drop_first()[j].0@ != tv) by {
            assert(forall|j: int| 0 <= j < s.drop_first().len() ==> s.drop_first()[j] == s[j + 1]);
        }
        lemma_index_counter_absent(s.drop_first(), tv);
    }
}

proof fn lemma_index_counter_pushed(s: Seq<(TypeVarName, u32)>, e: (TypeVarName, u32), tv: Seq<char>)
    requires
        forall|j: int| 0 <= j < s.len() ==> s[j].0@ != tv,
        e.0@ == tv,
    ensures
        index_counter(s.push(e), tv) == e.1,
        forall|other: Seq<char>|
            other != tv && other != e.0@ ==> index_counter(s.push(e), other) == index_counter(
                s,
                other,
            ),
    decreases s.len(),
{
    if s.len() == 0 {
        assert(s.push(e)[0] == e);
        assert forall|other: Seq<char>| other != tv && other != e.0@ implies index_counter(
            s.push(e),
            other,
        ) == index_counter(s, other) by {
            assert(s.push(e).drop_first() =~= s);
        }
    } else {
        assert(s.push(e)[0] == s[0]);
        assert(s.push(e).drop_first() =~= s.drop_first().push(e));
        assert(forall|j: int| 0 <= j < s.drop_first().len() ==> s.drop_first()[j] == s[j + 1]);
        lemma_index_counter_pushed(s.drop_first(), e, tv);
        assert forall|other: Seq<char>| other != tv && other != e.0@ implies index_counter(
            s.push(e),
            other,
        ) == index_counter(s, other) by {
            assert(s.push(e)[0] == s[0]);
            assert(s.push(e).drop_first() =~= s.drop_first().push(e));
            if s[0].0@ != other {
                assert(index_counter(s.push(e), other) == index_counter(
                    s.drop_first().push(e),
                    other,
                ));
                assert(index_counter(s, other) == index_counter(s.drop_first(), other));
            }
        }
    }
}

/// The file name a module path stands for: the dot-separated path with
/// dots turned into path separators and the fixed source extension
/// appended.
pub open spec fn spec_sect_file(p: ModulePath) -> Seq<char> {
    p.0@.map_values(|c: char| if c == '.' { '/' } else { c }) + ".schism"@
}

/// Renders a module path as its source file's relative path.
pub fn sect_file_name(sect: &ModulePath) -> (r: String)
    ensures
        r@ == spec_sect_file(*sect),
{
    let mut r = sect.to_file_syntax();
    append_lit(&mut r, ".schism");
    r
}

/// The module path a source identifier names: a trailing source-file
/// extension is stripped; anything else is taken as spelled.
pub open spec fn spec_strip_extension(s: Seq<char>) -> Seq<char> {
    if s.len() >= 7 && s.subrange(s.len() - 7, s.len() as int) == ".schism"@ {
        s.take(s.len() - 7)
    } else {
        s
    }
}

/// Whether a source identifier already carries the source-file extension.
fn has_schism_extension(text: &str) -> (r: bool)
    ensures
        r == (text@.len() >= 7 && text@.subrange(text@.len() - 7, text@.len() as int)
            == ".schism"@),
{
    let n = text.unicode_len();
    if n < 7 {
        return false;
    }
    proof {
        reveal_strlit(".schism");
    }
    let ext = ".schism";
    let mut k: usize = 0;
    while k < 7
        invariant
            n == text@.len(),
            n >= 7,
            k <= 7,
            ext@ == ".schism"@,
            ext@.len() == 7,
            forall|j: int| 0 <= j < k ==> text@[n - 7 + j] == ".schism"@[j],
        decreases 7 - k,
    {
        if text.get_char(n - 7 + k) != ext.get_char(k) {
            proof {
                assert(text@.subrange(n - 7, n as int)[k as int] == text@[n - 7 + k]);
            }
            return false;
        }
        k = k + 1;
    }
    proof {
        assert(text@.subrange(n - 7, n as int) =~= ".schism"@);
    }
    true
}

/// Converts a caller-supplied source identifier to a module path.
pub fn path_to_sect(path: &String) -> (r: ModulePath)
    ensures
        r.0@ == spec_strip_extension(path@),
{
    let text = path.as_str();
    let n = text.unicode_len();
    let has_ext = has_schism_extension(text);
    if has_ext {
        let mut out = String::new();
        let keep = n - 7;
        let mut i: usize = 0;
        while i < keep
            invariant
                keep <= n == text@.len(),
                i <= keep,
                out@ == text@.take(i as int),
            decreases keep - i,
        {
            crate::chars::push_char(&mut out, text.get_char(i));
            proof {
                assert(out@ =~= text@.take(i + 1));
            }
            i = i + 1;
        }
        proof {
            assert(spec_strip_extension(text@) == text@.take(n - 7));
        }
        ModulePath(out)
    } else {
        let mut out = String::new();
        out.append(text);
        ModulePath(out)
    }
}

} // verus!
