//! The bounds on pattern library documents, and the merging of libraries.
//!
//! Reading a document and turning it into a library is the caller's part;
//! the caller asks here whether a document is within bounds before it reads
//! and before it parses, and merges what it has parsed.

use vstd::prelude::*;
use vstd::string::*;
use crate::text::{decimal, decimal_digits, decimal_u64, lines_of, split_lines};
use crate::types::{
    first_duplicate, id_taken, id_used, ids_distinct, lemma_no_duplicate, Invariant,
    InvariantView, Pattern, PatternLibrary, PatternLibraryView, PatternView,
};

verus! {

/// The bounds that a loader keeps.
#[derive(Debug, Clone, Copy)]
pub struct LoaderLimits {
    /// The most bytes that a library document may have.
    pub max_file_size: u64,
    /// The most lines that a library document may have.
    pub max_lines: usize,
    /// The most libraries that one merge takes.
    pub max_libraries: usize,
}

/// The default bounds: a document of one mebibyte and ten thousand lines,
/// a hundred libraries.
pub open spec fn default_loader_limits() -> LoaderLimits {
    LoaderLimits { max_file_size: 1048576, max_lines: 10_000, max_libraries: 100 }
}

impl Default for LoaderLimits {
    fn default() -> (r: LoaderLimits)
        ensures
            r == default_loader_limits(),
    {
        LoaderLimits { max_file_size: 1024 * 1024, max_lines: 10_000, max_libraries: 100 }
    }
}

/// Why a document or a set of libraries is refused.
#[derive(Debug)]
#[allow(inconsistent_fields)]
pub enum LoaderError {
    FileTooLarge { size: u64, max: u64 },
    TooManyLines { lines: usize, max: usize },
    TooManyLibraries { count: usize, max: usize },
    DuplicatePatternId { id: String },
}

/// The model of a `LoaderError`.
#[allow(inconsistent_fields)]
pub enum LoaderFault {
    FileTooLarge { size: int, max: int },
    TooManyLines { lines: int, max: int },
    TooManyLibraries { count: int, max: int },
    DuplicatePatternId { id: Seq<char> },
}

impl View for LoaderError {
    type V = LoaderFault;

    open spec fn view(&self) -> LoaderFault {
        match self {
            LoaderError::FileTooLarge { size, max } => LoaderFault::FileTooLarge {
                size: *size as int,
                max: *max as int,
            },
            LoaderError::TooManyLines { lines, max } => LoaderFault::TooManyLines {
                lines: *lines as int,
                max: *max as int,
            },
            LoaderError::TooManyLibraries { count, max } => LoaderFault::TooManyLibraries {
                count: *count as int,
                max: *max as int,
            },
            LoaderError::DuplicatePatternId { id } => LoaderFault::DuplicatePatternId { id: id@ },
        }
    }
}

impl LoaderError {
    /// The error in words.
    pub open spec fn spec_message(&self) -> Seq<char> {
        match self {
            LoaderError::FileTooLarge { size, max } => "Pattern file too large: "@ + decimal_digits(
                *size as nat,
            ) + " bytes (max "@ + decimal_digits(*max as nat) + ")"@,
            LoaderError::TooManyLines { lines, max } => "Pattern file too complex: "@
                + decimal_digits(*lines as nat) + " lines (max "@ + decimal_digits(*max as nat)
                + ")"@,
            LoaderError::TooManyLibraries { count, max } => "Too many pattern libraries: "@
                + decimal_digits(*count as nat) + " (max "@ + decimal_digits(*max as nat) + ")"@,
            LoaderError::DuplicatePatternId { id } => "Duplicate pattern id '"@ + id@
                + "' found while merging libraries"@,
        }
    }

    /// The error in words.
    pub fn message(&self) -> (r: String)
        ensures
            r@ == self.spec_message(),
    {
        match self {
            LoaderError::FileTooLarge { size, max } => {
                let mut s = String::from_str("Pattern file too large: ");
                s.append(decimal_u64(*size).as_str());
                s.append(" bytes (max ");
                s.append(decimal_u64(*max).as_str());
                s.append(")");
                s
            },
            LoaderError::TooManyLines { lines, max } => {
                let mut s = String::from_str("Pattern file too complex: ");
                s.append(decimal(*lines).as_str());
                s.append(" lines (max ");
                s.append(decimal(*max).as_str());
                s.append(")");
                s
            },
            LoaderError::TooManyLibraries { count, max } => {
                let mut s = String::from_str("Too many pattern libraries: ");
                s.append(decimal(*count).as_str());
                s.append(" (max ");
                s.append(decimal(*max).as_str());
                s.append(")");
                s
            },
            LoaderError::DuplicatePatternId { id } => {
                let mut s = String::from_str("Duplicate pattern id '");
                s.append(id.as_str());
                s.append("' found while merging libraries");
                s
            },
        }
    }
}

/// Whether a document of the given size may be read: it may exactly if it
/// has no more bytes than the bound.
pub fn check_file_size(size: u64, limits: &LoaderLimits) -> (r: Result<(), LoaderError>)
    ensures
        match r {
            Ok(_) => size <= limits.max_file_size,
            Err(e) => size > limits.max_file_size && e@ == (LoaderFault::FileTooLarge {
                size: size as int,
                max: limits.max_file_size as int,
            }),
        },
{
    if size > limits.max_file_size {
        Err(LoaderError::FileTooLarge { size, max: limits.max_file_size })
    } else {
        Ok(())
    }
}

/// Whether a document may be parsed: it may exactly if it has no more lines
/// than the bound.
pub fn check_line_count(content: &str, limits: &LoaderLimits) -> (r: Result<(), LoaderError>)
    ensures
        match r {
            Ok(_) => split_lines(content@).len() <= limits.max_lines,
            Err(e) => split_lines(content@).len() > limits.max_lines && e@
                == (LoaderFault::TooManyLines {
                lines: split_lines(content@).len() as int,
                max: limits.max_lines as int,
            }),
        },
{
    let lines = lines_of(content);
    if lines.len() > limits.max_lines {
        Err(LoaderError::TooManyLines { lines: lines.len(), max: limits.max_lines })
    } else {
        Ok(())
    }
}

/// Whether a number of libraries may be merged: it may exactly if it is no
/// more than the bound.
pub fn check_library_count(count: usize, limits: &LoaderLimits) -> (r: Result<(), LoaderError>)
    ensures
        match r {
            Ok(_) => count <= limits.max_libraries,
            Err(e) => count > limits.max_libraries && e@ == (LoaderFault::TooManyLibraries {
                count: count as int,
                max: limits.max_libraries as int,
            }),
        },
{
    if count > limits.max_libraries {
        Err(LoaderError::TooManyLibraries { count, max: limits.max_libraries })
    } else {
        Ok(())
    }
}

/// The patterns of the first `n` libraries, in order.
pub open spec fn patterns_upto(libraries: Seq<PatternLibraryView>, n: int) -> Seq<PatternView>
    decreases n,
{
    if n <= 0 {
        Seq::empty()
    } else {
        patterns_upto(libraries, n - 1) + libraries[n - 1].patterns
    }
}

/// The invariants of the first `n` libraries, in order.
pub open spec fn invariants_upto(libraries: Seq<PatternLibraryView>, n: int) -> Seq<InvariantView>
    decreases n,
{
    if n <= 0 {
        Seq::empty()
    } else {
        invariants_upto(libraries, n - 1) + libraries[n - 1].invariants
    }
}

/// The outcome of taking one more library into what is merged so far: the
/// patterns and invariants of the two, one after the other, unless a
/// pattern of the new library repeats an id; then the first such id.
pub open spec fn merged_with(merged: PatternLibraryView, next: PatternLibraryView) -> Result<
    PatternLibraryView,
    LoaderFault,
> {
    match first_duplicate(merged.patterns + next.patterns, merged.patterns.len() as int) {
        Some(id) => Err(LoaderFault::DuplicatePatternId { id }),
        None => Ok(
            PatternLibraryView {
                patterns: merged.patterns + next.patterns,
                invariants: merged.invariants + next.invariants,
            },
        ),
    }
}

/// The outcome of merging libraries: too many are refused; else the first
/// pattern that repeats an id of an earlier one, in the order of the merged
/// sequence, is an error; else the patterns and the invariants are joined
/// in order.
pub open spec fn merge_outcome(libraries: Seq<PatternLibraryView>, limits: LoaderLimits) -> Result<
    PatternLibraryView,
    LoaderFault,
> {
    if libraries.len() > limits.max_libraries {
        Err(
            LoaderFault::TooManyLibraries {
                count: libraries.len() as int,
                max: limits.max_libraries as int,
            },
        )
    } else {
        let patterns = patterns_upto(libraries, libraries.len() as int);
        match first_duplicate(patterns, 0) {
            Some(id) => Err(LoaderFault::DuplicatePatternId { id }),
            None => Ok(
                PatternLibraryView {
                    patterns,
                    invariants: invariants_upto(libraries, libraries.len() as int),
                },
            ),
        }
    }
}

/// Takes one more library into what is merged so far.
#[verifier::loop_isolation(false)]
pub fn merge_library(merged: PatternLibrary, next: PatternLibrary) -> (r: Result<
    PatternLibrary,
    LoaderError,
>)
    ensures
        match r {
            Ok(lib) => merged_with(merged.deep_view(), next.deep_view()) == Ok::<
                PatternLibraryView,
                LoaderFault,
            >(lib.deep_view()),
            Err(e) => merged_with(merged.deep_view(), next.deep_view()) == Err::<
                PatternLibraryView,
                LoaderFault,
            >(e@),
        },
{
    let ghost old_patterns = merged.patterns.deep_view();
    let ghost old_invariants = merged.invariants.deep_view();
    let ghost new_patterns = next.patterns.deep_view();
    let ghost new_invariants = next.invariants.deep_view();
    let ghost all = old_patterns + new_patterns;
    let mut patterns = merged.patterns;
    let mut invariants = merged.invariants;
    let mut more_patterns = next.patterns;
    let mut more_invariants = next.invariants;
    let start = patterns.len();
    patterns.append(&mut more_patterns);
    assert(patterns.deep_view() =~= all);
    let mut i: usize = start;
    while i < patterns.len()
        invariant
            start <= i <= patterns.len(),
            patterns.deep_view() == all,
            first_duplicate(all, start as int) == first_duplicate(all, i as int),
        decreases patterns.len() - i,
    {
        if id_used(&patterns, i) {
            assert(all[i as int] == patterns[i as int].deep_view());
            return Err(LoaderError::DuplicatePatternId { id: patterns[i].id.clone() });
        }
        i += 1;
    }
    invariants.append(&mut more_invariants);
    assert(invariants.deep_view() =~= old_invariants + new_invariants);
    Ok(PatternLibrary { patterns, invariants })
}

/// Whether an id is taken among the first patterns does not depend on what
/// follows.
pub proof fn lemma_duplicate_prefix(a: Seq<PatternView>, b: Seq<PatternView>, from: int)
    requires
        0 <= from <= a.len(),
    ensures
        first_duplicate(a, from) is Some ==> first_duplicate(a + b, from) == first_duplicate(
            a,
            from,
        ),
        first_duplicate(a, from) is None ==> first_duplicate(a + b, from) == first_duplicate(
            a + b,
            a.len() as int,
        ),
    decreases a.len() - from,
{
    let ab = a + b;
    if from < a.len() {
        assert(ab[from] == a[from]);
        if id_taken(a, from) {
            let j = choose|j: int| 0 <= j < from && (#[trigger] a[j]).id == a[from].id;
            assert(ab[j] == a[j]);
            assert(id_taken(ab, from));
        } else {
            if id_taken(ab, from) {
                let j = choose|j: int| 0 <= j < from && (#[trigger] ab[j]).id == ab[from].id;
                assert(ab[j] == a[j]);
                assert(id_taken(a, from));
            }
            lemma_duplicate_prefix(a, b, from + 1);
        }
    }
}

/// Merges libraries into one, in order.  The ids of the merged library are
/// pairwise distinct.
pub fn load_pattern_libraries_with_limits(libraries: Vec<PatternLibrary>, limits: LoaderLimits) -> (r:
    Result<PatternLibrary, LoaderError>)
    ensures
        match r {
            Ok(lib) => merge_outcome(libraries.deep_view(), limits) == Ok::<
                PatternLibraryView,
                LoaderFault,
            >(lib.deep_view()) && ids_distinct(lib.deep_view().patterns),
            Err(e) => merge_outcome(libraries.deep_view(), limits) == Err::<
                PatternLibraryView,
                LoaderFault,
            >(e@),
        },
{
    let ghost libs = libraries.deep_view();
    match check_library_count(libraries.len(), &limits) {
        Ok(_) => {},
        Err(e) => {
            return Err(e);
        },
    }
    let mut merged = PatternLibrary { patterns: Vec::new(), invariants: Vec::new() };
    let n = libraries.len();
    let mut i: usize = 0;
    assert(merged.deep_view().patterns =~= patterns_upto(libs, 0));
    assert(merged.deep_view().invariants =~= invariants_upto(libs, 0));
    while i < n
        invariant
            libs == libraries.deep_view(),
            n == libraries.len(),
            n <= limits.max_libraries,
            i <= n,
            merged.deep_view().patterns == patterns_upto(libs, i as int),
            merged.deep_view().invariants == invariants_upto(libs, i as int),
            first_duplicate(patterns_upto(libs, i as int), 0) is None,
        decreases n - i,
    {
        let ghost before = merged.deep_view();
        let next = PatternLibrary {
            patterns: duplicate_patterns(&libraries[i].patterns),
            invariants: duplicate_invariants(&libraries[i].invariants),
        };
        assert(next.deep_view() == libs[i as int]);
        proof {
            lemma_duplicate_prefix(before.patterns, libs[i as int].patterns, 0);
        }
        match merge_library(merged, next) {
            Ok(lib) => {
                merged = lib;
            },
            Err(e) => {
                proof {
                    lemma_merge_fails(libs, i as int + 1, n as int);
                }
                return Err(e);
            },
        }
        i += 1;
    }
    proof {
        lemma_no_duplicate(merged.deep_view().patterns, 0);
    }
    Ok(merged)
}

/// A repeated id among the first libraries is the first repeated id of any
/// longer merge.
pub proof fn lemma_merge_fails(libraries: Seq<PatternLibraryView>, m: int, n: int)
    requires
        0 <= m <= n <= libraries.len(),
        first_duplicate(patterns_upto(libraries, m), 0) is Some,
    ensures
        first_duplicate(patterns_upto(libraries, n), 0) == first_duplicate(
            patterns_upto(libraries, m),
            0,
        ),
    decreases n - m,
{
    if m < n {
        lemma_merge_fails(libraries, m, n - 1);
        lemma_duplicate_prefix(patterns_upto(libraries, n - 1), libraries[n - 1].patterns, 0);
    }
}

/// Merges libraries into one with the default bounds.
pub fn load_pattern_libraries(libraries: Vec<PatternLibrary>) -> (r: Result<
    PatternLibrary,
    LoaderError,
>)
    ensures
        match r {
            Ok(lib) => ids_distinct(lib.deep_view().patterns) && merge_outcome(
                libraries.deep_view(),
                default_loader_limits(),
            ) == Ok::<PatternLibraryView, LoaderFault>(lib.deep_view()),
            Err(e) => merge_outcome(libraries.deep_view(), default_loader_limits()) == Err::<
                PatternLibraryView,
                LoaderFault,
            >(e@),
        },
{
    let limits = LoaderLimits::default();
    load_pattern_libraries_with_limits(libraries, limits)
}

/// A copy of a list of patterns.
pub fn duplicate_patterns(patterns: &Vec<Pattern>) -> (r: Vec<Pattern>)
    ensures
        r.deep_view() == patterns.deep_view(),
{
    let mut out: Vec<Pattern> = Vec::new();
    let mut i: usize = 0;
    while i < patterns.len()
        invariant
            i <= patterns.len(),
            out.len() == i,
            forall|k: int| 0 <= k < i ==> (#[trigger] out[k]).deep_view() == patterns[k].deep_view(),
        decreases patterns.len() - i,
    {
        out.push(patterns[i].duplicate());
        i += 1;
    }
    assert(out.deep_view() =~= patterns.deep_view());
    out
}

/// A copy of a list of invariants.
pub fn duplicate_invariants(invariants: &Vec<Invariant>) -> (r: Vec<Invariant>)
    ensures
        r.deep_view() == invariants.deep_view(),
{
    let mut out: Vec<Invariant> = Vec::new();
    let mut i: usize = 0;
    while i < invariants.len()
        invariant
            i <= invariants.len(),
            out.len() == i,
            forall|k: int|
                0 <= k < i ==> (#[trigger] out[k]).deep_view() == invariants[k].deep_view(),
        decreases invariants.len() - i,
    {
        out.push(invariants[i].duplicate());
        i += 1;
    }
    assert(out.deep_view() =~= invariants.deep_view());
    out
}

} // verus!
