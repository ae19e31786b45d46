use vstd::prelude::*;
use crate::error::Circle9Error;
use crate::paths::{extension, extension_of, file_name, file_name_of, file_stem, file_stem_of};
use crate::types::{decimal, now_millis, push_decimal};

verus! {

/// The most numbered names tried when renaming around a conflict.
pub const MAX_RENAME_ATTEMPTS: u16 = 1000;

/// `s` in lower case, as `str::to_lowercase` gives it.
pub uninterp spec fn lower_of(s: Seq<char>) -> Seq<char>;

/// Relies on str::to_lowercase: the lower-case form of `s`, which depends on
/// the characters alone.
#[verifier::external_body]
fn to_lower(s: &str) -> (r: String)
    ensures
        r@ == lower_of(s@),
{
    s.to_lowercase()
}

/// How a conflict between two names is settled.
#[derive(Debug, Clone)]
pub enum CaseResolution {
    /// Copy under this new name instead.
    AutoRename(String),
    /// Ask the user.
    UserPrompt,
    Skip,
    Overwrite,
}

/// Two names that collide when case is ignored. `timestamp` is in
/// milliseconds since the Unix epoch.
#[derive(Debug, Clone)]
pub struct CaseConflict {
    pub original_name: String,
    pub conflict_name: String,
    pub resolution: CaseResolution,
    pub timestamp: i64,
}

impl CaseConflict {
    /// A field-by-field copy.
    pub fn duplicate(&self) -> (r: CaseConflict)
        ensures
            r == *self,
    {
        let resolution = match &self.resolution {
            CaseResolution::AutoRename(n) => CaseResolution::AutoRename(n.clone()),
            CaseResolution::UserPrompt => CaseResolution::UserPrompt,
            CaseResolution::Skip => CaseResolution::Skip,
            CaseResolution::Overwrite => CaseResolution::Overwrite,
        };
        CaseConflict {
            original_name: self.original_name.clone(),
            conflict_name: self.conflict_name.clone(),
            resolution,
            timestamp: self.timestamp,
        }
    }
}

/// The conflicts seen so far, with their counts by resolution.
#[derive(Debug, Clone)]
pub struct CaseConflictLog {
    pub conflicts: Vec<CaseConflict>,
    pub total_conflicts: usize,
    pub auto_resolved: usize,
    pub user_prompts: usize,
}

/// How many of `cs` were renamed automatically.
pub open spec fn count_auto_renamed(cs: Seq<CaseConflict>) -> nat
    decreases cs.len(),
{
    if cs.len() == 0 {
        0
    } else {
        count_auto_renamed(cs.drop_last()) + if cs.last().resolution is AutoRename {
            1nat
        } else {
            0nat
        }
    }
}

/// How many of `cs` were left to the user.
pub open spec fn count_user_prompts(cs: Seq<CaseConflict>) -> nat
    decreases cs.len(),
{
    if cs.len() == 0 {
        0
    } else {
        count_user_prompts(cs.drop_last()) + if cs.last().resolution is UserPrompt {
            1nat
        } else {
            0nat
        }
    }
}

impl CaseConflictLog {
    /// The counts agree with the conflicts logged.
    pub open spec fn counts_agree(&self) -> bool {
        &&& self.total_conflicts == self.conflicts@.len()
        &&& self.auto_resolved == count_auto_renamed(self.conflicts@)
        &&& self.user_prompts == count_user_prompts(self.conflicts@)
    }
}

/// The name of the final component of `path`, or the empty name.
pub open spec fn name_or_empty(path: Seq<char>) -> Seq<char> {
    match file_name_of(path) {
        Some(n) => n,
        None => Seq::empty(),
    }
}

/// The stem used when renaming `path`: its file stem, or `file`.
pub open spec fn rename_stem(path: Seq<char>) -> Seq<char> {
    match file_stem_of(path) {
        Some(s) => s,
        None => "file"@,
    }
}

/// The suffix used when renaming `path`: a dot and its extension, or nothing.
pub open spec fn rename_suffix(path: Seq<char>) -> Seq<char> {
    match extension_of(path) {
        Some(e) => "."@ + e,
        None => Seq::empty(),
    }
}

/// The `n`th name tried when renaming `path`: `stem_n.ext`.
pub open spec fn numbered_name(path: Seq<char>, n: nat) -> Seq<char> {
    rename_stem(path) + "_"@ + decimal(n) + rename_suffix(path)
}

/// Whether two names collide on a case-insensitive system without being
/// the same name.
pub open spec fn names_conflict(a: Seq<char>, b: Seq<char>) -> bool {
    lower_of(a) == lower_of(b) && a != b
}

fn contains_name(names: &Vec<String>, name: &String) -> (r: bool)
    ensures
        r == exists|i: int| 0 <= i < names@.len() && names@[i]@ == name@,
{
    let mut i: usize = 0;
    while i < names.len()
        invariant
            i <= names@.len(),
            forall|j: int| 0 <= j < i ==> names@[j]@ != name@,
        decreases names@.len() - i,
    {
        if names[i] == *name {
            return true;
        }
        i = i + 1;
    }
    false
}

/// Whether `name` is one of `names`.
pub open spec fn name_taken(names: Seq<String>, name: Seq<char>) -> bool {
    exists|i: int| 0 <= i < names.len() && names[i]@ == name
}

/// Detection and bookkeeping of file-name case conflicts between a
/// case-insensitive and a case-sensitive file system.
pub struct CaseAgent {
    conflict_log: CaseConflictLog,
    case_mapping: Vec<(String, String)>,
}

impl CaseAgent {
    /// The conflict log.
    pub closed spec fn log(&self) -> CaseConflictLog {
        self.conflict_log
    }

    /// The recorded resolutions, as (original name, resolved name) pairs.
    pub closed spec fn resolutions(&self) -> Seq<(Seq<char>, Seq<char>)> {
        self.case_mapping@.map_values(|p: (String, String)| (p.0@, p.1@))
    }

    pub closed spec fn wf(&self) -> bool {
        &&& self.conflict_log.counts_agree()
        &&& forall|i: int, j: int|
            0 <= i < j < self.case_mapping@.len() ==> (#[trigger] self.case_mapping@[i]).0@
                != (#[trigger] self.case_mapping@[j]).0@
    }

    /// An agent with an empty log and no recorded resolutions.
    pub fn new() -> (r: CaseAgent)
        ensures
            r.wf(),
            r.log().conflicts@.len() == 0,
            r.resolutions().len() == 0,
    {
        let r = CaseAgent {
            conflict_log: CaseConflictLog {
                conflicts: Vec::new(),
                total_conflicts: 0,
                auto_resolved: 0,
                user_prompts: 0,
            },
            case_mapping: Vec::new(),
        };
        assert(r.resolutions() =~= Seq::<(Seq<char>, Seq<char>)>::empty());
        r
    }

    /// The first of `stem_1.ext`, `stem_2.ext`, ... up to the thousandth that
    /// is not in `taken`, the names already present beside `path`. Fails with
    /// `InvalidPath` when all of them are taken.
    pub fn generate_unique_name(path: &str, taken: &Vec<String>) -> (r: Result<
        String,
        Circle9Error,
    >)
        ensures
            match r {
                Ok(name) => exists|n: nat|
                    1 <= n <= MAX_RENAME_ATTEMPTS && name@ == numbered_name(path@, n)
                        && !name_taken(taken@, name@) && forall|m: nat|
                        1 <= m < n ==> name_taken(taken@, #[trigger] numbered_name(path@, m)),
                Err(e) => e is InvalidPath && forall|m: nat|
                    1 <= m <= MAX_RENAME_ATTEMPTS ==> name_taken(
                        taken@,
                        #[trigger] numbered_name(path@, m),
                    ),
            },
    {
        let stem = match file_stem(path) {
            Some(s) => s,
            None => String::from_str("file"),
        };
        let suffix = match extension(path) {
            Some(e) => {
                let mut s = String::from_str(".");
                s.append(e.as_str());
                s
            },
            None => String::new(),
        };
        let mut counter: u16 = 1;
        while counter <= MAX_RENAME_ATTEMPTS
            invariant
                1 <= counter <= MAX_RENAME_ATTEMPTS + 1,
                stem@ == rename_stem(path@),
                suffix@ == rename_suffix(path@),
                forall|m: nat| 1 <= m < counter ==> name_taken(taken@, #[trigger] numbered_name(path@, m)),
            decreases MAX_RENAME_ATTEMPTS + 1 - counter,
        {
            let mut candidate = stem.clone();
            candidate.append("_");
            push_decimal(&mut candidate, counter);
            candidate.append(suffix.as_str());
            assert(candidate@ == numbered_name(path@, counter as nat));
            if !contains_name(taken, &candidate) {
                return Ok(candidate);
            }
            counter = counter + 1;
        }
        Err(
            Circle9Error::InvalidPath(
                String::from_str("Could not generate unique name after 1000 attempts"),
            ),
        )
    }

    /// Adds `conflict` to the log and updates the counts.
    fn log_conflict(&mut self, conflict: CaseConflict)
        requires
            old(self).wf(),
        ensures
            final(self).wf(),
            final(self).log().conflicts@ == old(self).log().conflicts@.push(conflict),
            final(self).resolutions() == old(self).resolutions(),
    {
        let ghost before = self.conflict_log.conflicts@;
        let auto = matches!(conflict.resolution, CaseResolution::AutoRename(_));
        let prompt = matches!(conflict.resolution, CaseResolution::UserPrompt);
        self.conflict_log.conflicts.push(conflict);
        let n: usize = self.conflict_log.conflicts.len();
        proof {
            assert(self.conflict_log.conflicts@.drop_last() =~= before);
            lemma_counts_le_len(before);
        }
        self.conflict_log.total_conflicts = n;
        if auto {
            self.conflict_log.auto_resolved = self.conflict_log.auto_resolved + 1;
        }
        if prompt {
            self.conflict_log.user_prompts = self.conflict_log.user_prompts + 1;
        }
    }

    /// Checks a copy from the case-insensitive side to the case-sensitive
    /// side: names that differ only in case conflict, and the conflict is
    /// resolved by renaming to the first free numbered name beside the
    /// destination (`taken` lists the names already there). The conflict is
    /// logged and returned; no conflict gives `None` and changes nothing.
    pub fn check_windows_to_linux_conflict(
        &mut self,
        windows_path: &str,
        linux_path: &str,
        taken: &Vec<String>,
    ) -> (r: Result<Option<CaseConflict>, Circle9Error>)
        requires
            old(self).wf(),
        ensures
            final(self).wf(),
            final(self).resolutions() == old(self).resolutions(),
            !names_conflict(name_or_empty(windows_path@), name_or_empty(linux_path@)) ==> r
                == Ok::<Option<CaseConflict>, Circle9Error>(None) && *final(self) == *old(self),
            r is Err <==> names_conflict(name_or_empty(windows_path@), name_or_empty(linux_path@))
                && forall|m: nat|
                1 <= m <= MAX_RENAME_ATTEMPTS ==> name_taken(
                    taken@,
                    #[trigger] numbered_name(linux_path@, m),
                ),
            r is Err ==> r->Err_0 is InvalidPath && *final(self) == *old(self),
            r matches Ok(Some(c)) ==> {
                &&& names_conflict(name_or_empty(windows_path@), name_or_empty(linux_path@))
                &&& c.original_name@ == name_or_empty(windows_path@)
                &&& c.conflict_name@ == name_or_empty(linux_path@)
                &&& c.resolution matches CaseResolution::AutoRename(n) && exists|k: nat|
                    1 <= k <= MAX_RENAME_ATTEMPTS && n@ == numbered_name(linux_path@, k)
                        && !name_taken(taken@, n@) && forall|m: nat|
                        1 <= m < k ==> name_taken(taken@, #[trigger] numbered_name(linux_path@, m))
                &&& final(self).log().conflicts@ == old(self).log().conflicts@.push(c)
            },
            names_conflict(name_or_empty(windows_path@), name_or_empty(linux_path@)) ==> r
                != Ok::<Option<CaseConflict>, Circle9Error>(None),
    {
        let windows_name = match file_name(windows_path) {
            Some(n) => n,
            None => String::new(),
        };
        let linux_name = match file_name(linux_path) {
            Some(n) => n,
            None => String::new(),
        };
        if to_lower(windows_name.as_str()) == to_lower(linux_name.as_str()) && windows_name
            != linux_name {
            let new_name = match CaseAgent::generate_unique_name(linux_path, taken) {
                Ok(n) => n,
                Err(e) => return Err(e),
            };
            let conflict = CaseConflict {
                original_name: windows_name,
                conflict_name: linux_name,
                resolution: CaseResolution::AutoRename(new_name),
                timestamp: now_millis(),
            };
            let logged = conflict.duplicate();
            self.log_conflict(logged);
            return Ok(Some(conflict));
        }
        Ok(None)
    }

    /// Checks a copy from the case-sensitive side to the case-insensitive
    /// side: when the destination exists already (`dest_exists`), the copy
    /// conflicts with it and is left to the user. The conflict is logged and
    /// returned; otherwise nothing changes.
    pub fn check_linux_to_windows_conflict(
        &mut self,
        linux_path: &str,
        windows_path: &str,
        dest_exists: bool,
    ) -> (r: Option<CaseConflict>)
        requires
            old(self).wf(),
        ensures
            final(self).wf(),
            final(self).resolutions() == old(self).resolutions(),
            r is Some <==> dest_exists,
            !dest_exists ==> *final(self) == *old(self),
            r matches Some(c) ==> {
                &&& c.original_name@ == name_or_empty(linux_path@)
                &&& c.conflict_name@ == name_or_empty(windows_path@)
                &&& c.resolution is UserPrompt
                &&& final(self).log().conflicts@ == old(self).log().conflicts@.push(c)
            },
    {
        if !dest_exists {
            return None;
        }
        let linux_name = match file_name(linux_path) {
            Some(n) => n,
            None => String::new(),
        };
        let windows_name = match file_name(windows_path) {
            Some(n) => n,
            None => String::new(),
        };
        let conflict = CaseConflict {
            original_name: linux_name,
            conflict_name: windows_name,
            resolution: CaseResolution::UserPrompt,
            timestamp: now_millis(),
        };
        let logged = conflict.duplicate();
        self.log_conflict(logged);
        Some(conflict)
    }

    /// The position of the resolution recorded for `name`, if any.
    fn find_resolution(&self, name: &String) -> (r: Option<usize>)
        ensures
            match r {
                Some(i) => i < self.case_mapping@.len() && self.resolutions()[i as int].0
                    == name@,
                None => forall|i: int|
                    0 <= i < self.resolutions().len() ==> #[trigger] self.resolutions()[i].0
                        != name@,
            },
    {
        let mut i: usize = 0;
        while i < self.case_mapping.len()
            invariant
                i <= self.case_mapping@.len(),
                forall|j: int| 0 <= j < i ==> #[trigger] self.resolutions()[j].0 != name@,
            decreases self.case_mapping@.len() - i,
        {
            if self.case_mapping[i].0 == *name {
                return Some(i);
            }
            i = i + 1;
        }
        None
    }

    /// The name that `original_name` was resolved to, if one was recorded.
    pub fn get_resolved_name(&self, original_name: &str) -> (r: Option<String>)
        requires
            self.wf(),
        ensures
            r is Some <==> exists|i: int|
                0 <= i < self.resolutions().len() && #[trigger] self.resolutions()[i].0
                    == original_name@,
            forall|i: int|
                0 <= i < self.resolutions().len() && #[trigger] self.resolutions()[i].0
                    == original_name@ ==> r is Some && r->Some_0@ == self.resolutions()[i].1,
    {
        let key = String::from_str(original_name);
        match self.find_resolution(&key) {
            Some(i) => {
                proof {
                    assert forall|j: int|
                        0 <= j < self.resolutions().len() && #[trigger] self.resolutions()[j].0
                            == original_name@ implies j == i by {
                        if j != i {
                            if j < i {
                                assert(self.case_mapping@[j].0@ != self.case_mapping@[i as int].0@);
                            } else {
                                assert(self.case_mapping@[i as int].0@ != self.case_mapping@[j].0@);
                            }
                        }
                    }
                }
                Some(self.case_mapping[i].1.clone())
            },
            None => None,
        }
    }

    /// Records that `original_name` is resolved to `resolved_name`, replacing
    /// any earlier resolution of the same name.
    pub fn record_resolution(&mut self, original_name: String, resolved_name: String)
        requires
            old(self).wf(),
        ensures
            final(self).wf(),
            final(self).log() == old(self).log(),
            exists|i: int|
                0 <= i < final(self).resolutions().len() && #[trigger] final(self).resolutions()[i]
                    == (original_name@, resolved_name@),
            forall|i: int|
                0 <= i < final(self).resolutions().len() && #[trigger] final(self).resolutions()[i].0
                    != original_name@ ==> old(self).resolutions().contains(
                    final(self).resolutions()[i],
                ),
            forall|i: int|
                0 <= i < old(self).resolutions().len() && #[trigger] old(self).resolutions()[i].0
                    != original_name@ ==> final(self).resolutions().contains(
                    old(self).resolutions()[i],
                ),
    {
        let ghost before = self.case_mapping@;
        let ghost views = self.resolutions();
        match self.find_resolution(&original_name) {
            Some(i) => {
                let key = original_name;
                self.case_mapping.set(i, (key, resolved_name));
                proof {
                    assert(self.resolutions() =~= views.update(i as int, (original_name@, resolved_name@)));
                    assert(self.resolutions()[i as int] == (original_name@, resolved_name@));
                    assert forall|a: int, b: int|
                        0 <= a < b < self.case_mapping@.len() implies (#[trigger] self.case_mapping@[a]).0@
                            != (#[trigger] self.case_mapping@[b]).0@ by {
                        if a != i && b != i {
                            assert(self.case_mapping@[a] == before[a]);
                            assert(self.case_mapping@[b] == before[b]);
                        } else if a == i {
                            assert(self.case_mapping@[b] == before[b]);
                            assert(before[a].0@ != before[b].0@);
                        } else {
                            assert(self.case_mapping@[a] == before[a]);
                            assert(before[a].0@ != before[b].0@);
                        }
                    }
                    assert forall|j: int|
                        0 <= j < self.resolutions().len() && #[trigger] self.resolutions()[j].0
                            != original_name@ implies views.contains(self.resolutions()[j]) by {
                        assert(j != i);
                        assert(self.resolutions()[j] == views[j]);
                    }
                    assert forall|j: int|
                        0 <= j < views.len() && #[trigger] views[j].0 != original_name@ implies self.resolutions().contains(
                        views[j]) by {
                        assert(j != i);
                        assert(self.resolutions()[j] == views[j]);
                    }
                }
            },
            None => {
                let ghost pair = (original_name@, resolved_name@);
                self.case_mapping.push((original_name, resolved_name));
                proof {
                    assert(self.resolutions() =~= views.push(pair));
                    assert(self.resolutions()[views.len() as int] == pair);
                    assert forall|a: int, b: int|
                        0 <= a < b < self.case_mapping@.len() implies (#[trigger] self.case_mapping@[a]).0@
                            != (#[trigger] self.case_mapping@[b]).0@ by {
                        if b == before.len() {
                            assert(self.case_mapping@[a] == before[a]);
                            assert(views[a].0 != pair.0);
                        } else {
                            assert(self.case_mapping@[a] == before[a]);
                            assert(self.case_mapping@[b] == before[b]);
                        }
                    }
                    assert forall|j: int|
                        0 <= j < self.resolutions().len() && #[trigger] self.resolutions()[j].0
                            != original_name@ implies views.contains(self.resolutions()[j]) by {
                        assert(self.resolutions()[j] == views[j]);
                    }
                    assert forall|j: int|
                        0 <= j < views.len() && #[trigger] views[j].0 != original_name@ implies self.resolutions().contains(
                        views[j]) by {
                        assert(self.resolutions()[j] == views[j]);
                    }
                }
            },
        }
    }

    /// The conflict log.
    pub fn get_conflict_log(&self) -> (r: &CaseConflictLog)
        ensures
            *r == self.log(),
    {
        &self.conflict_log
    }

    /// Empties the conflict log and zeroes its counts; recorded resolutions
    /// stay.
    pub fn clear_conflict_log(&mut self)
        requires
            old(self).wf(),
        ensures
            final(self).wf(),
            final(self).log().conflicts@.len() == 0,
            final(self).log().total_conflicts == 0,
            final(self).log().auto_resolved == 0,
            final(self).log().user_prompts == 0,
            final(self).resolutions() == old(self).resolutions(),
    {
        self.conflict_log = CaseConflictLog {
            conflicts: Vec::new(),
            total_conflicts: 0,
            auto_resolved: 0,
            user_prompts: 0,
        };
    }

    /// The form of a file name used to compare names without case.
    pub fn normalize_filename(filename: &str) -> (r: String)
        ensures
            r@ == lower_of(filename@),
    {
        to_lower(filename)
    }

    /// Whether two file names are the same when case is ignored.
    pub fn filenames_equal_ignore_case(name1: &str, name2: &str) -> (r: bool)
        ensures
            r == (lower_of(name1@) == lower_of(name2@)),
    {
        to_lower(name1) == to_lower(name2)
    }
}

proof fn lemma_counts_le_len(cs: Seq<CaseConflict>)
    ensures
        count_auto_renamed(cs) <= cs.len(),
        count_user_prompts(cs) <= cs.len(),
    decreases cs.len(),
{
    if cs.len() > 0 {
        lemma_counts_le_len(cs.drop_last());
    }
}

} // verus!
