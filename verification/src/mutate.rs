//! Mutable-site scanning, mutation generation, and edit application.
//!
//! The parsing of source files into per-function site descriptors is done by
//! an unverified front end; everything from eligibility filtering through
//! candidate synthesis, ordering and byte-span application is decided here.

use vstd::prelude::*;
use vstd::string::StringSliceAdditionalSpecFns;

verus! {

/// Coarse classification of a function's declared return type, used to pick
/// obviously-wrong replacement literals.
#[derive(Clone, Copy, Debug, PartialEq, Eq, Structural)]
pub enum ReturnGenre {
    /// The function returns unit; the body can become a no-op.
    Unit,
    /// The function returns a boolean.
    Boolean,
    /// The function returns an integer of some width.
    Integer,
    /// The function returns owned text.
    Text,
    /// Any other type with a default value.
    Other,
}

/// Mathematical model of one mutable site.
pub ghost struct SiteView {
    pub name: Seq<char>,
    pub return_type: Seq<char>,
    pub genre: ReturnGenre,
    pub span_start: nat,
    pub span_end: nat,
    pub line: nat,
    pub is_test: bool,
    pub skip: bool,
    pub trivial: bool,
}

/// One function found while walking a parsed source file: where its body
/// is, what it returns, and why it might be excluded.
pub struct FunctionSite {
    /// Name of the function.
    pub name: String,
    /// Declared return type as written; empty for unit.
    pub return_type: String,
    /// Classification of the return type.
    pub genre: ReturnGenre,
    /// Byte offset of the first byte of the replaceable body region.
    pub span_start: usize,
    /// Byte offset one past the last byte of the region.
    pub span_end: usize,
    /// 1-based line of the function, for location strings.
    pub line: usize,
    /// The function is test code.
    pub is_test: bool,
    /// The function is generated code or explicitly annotated to be skipped.
    pub skip: bool,
    /// The body is too trivial to be worth mutating.
    pub trivial: bool,
}

impl View for FunctionSite {
    type V = SiteView;

    open spec fn view(&self) -> SiteView {
        SiteView {
            name: self.name@,
            return_type: self.return_type@,
            genre: self.genre,
            span_start: self.span_start as nat,
            span_end: self.span_end as nat,
            line: self.line as nat,
            is_test: self.is_test,
            skip: self.skip,
            trivial: self.trivial,
        }
    }
}

/// Mathematical model of one scanned source file.
pub ghost struct FileScanView {
    pub path: Seq<char>,
    pub parsed: bool,
    pub sites: Seq<SiteView>,
}

/// The scan of one source file: either its ordered sites, or a parse
/// failure, which skips the file but never aborts the run.
pub struct SourceFileScan {
    /// Path of the file, relative to the tree root.
    pub path: String,
    /// Whether the file parsed; when false, `sites` is empty.
    pub parsed: bool,
    /// The sites found, in increasing byte-offset order.
    pub sites: Vec<FunctionSite>,
}

impl View for SourceFileScan {
    type V = FileScanView;

    open spec fn view(&self) -> FileScanView {
        FileScanView {
            path: self.path@,
            parsed: self.parsed,
            sites: Seq::new(self.sites@.len(), |i: int| self.sites@[i]@),
        }
    }
}

/// Mathematical model of a [`Mutation`].
pub ghost struct MutationView {
    pub file: Seq<char>,
    pub line: nat,
    pub span_start: nat,
    pub span_end: nat,
    pub function_name: Seq<char>,
    pub return_type: Seq<char>,
    pub replacement: Seq<char>,
}

impl MutationView {
    /// The span never runs backwards.
    pub open spec fn well_formed(self) -> bool {
        self.span_start <= self.span_end
    }
}

/// An immutable description of one candidate edit: replace the bytes of one
/// span of one source file with a literal snippet of replacement text.
///
/// A mutation is generated once and never modified, so it can be shared
/// freely across workers.
#[derive(Clone, Debug)]
pub struct Mutation {
    /// Path of the source file the edit applies to.
    pub file: String,
    /// 1-based line of the replaced region, for human-readable location.
    pub line: usize,
    /// Byte offset of the first byte to replace.
    pub span_start: usize,
    /// Byte offset one past the last byte to replace.
    pub span_end: usize,
    /// Name of the enclosing function.
    pub function_name: String,
    /// Declared return type of the enclosing function; empty when it
    /// returns unit.
    pub return_type: String,
    /// Replacement source text for the span.
    pub replacement: String,
}

impl View for Mutation {
    type V = MutationView;

    open spec fn view(&self) -> MutationView {
        MutationView {
            file: self.file@,
            line: self.line as nat,
            span_start: self.span_start as nat,
            span_end: self.span_end as nat,
            function_name: self.function_name@,
            return_type: self.return_type@,
            replacement: self.replacement@,
        }
    }
}

impl Mutation {
    /// The span never runs backwards.
    pub open spec fn well_formed(self) -> bool {
        self@.well_formed()
    }

    /// The span lies inside a file of the given byte length.
    pub open spec fn applies_to_len(self, len: nat) -> bool {
        self.well_formed() && self@.span_end <= len
    }

    /// The bytes of the replacement text.
    pub open spec fn spec_replacement_bytes(self) -> Seq<u8> {
        vstd::utf8::encode_utf8(self.replacement@)
    }

    /// The file content after this edit: the bytes before the span, then the
    /// replacement text, then the bytes after the span.
    pub open spec fn spec_apply(self, orig: Seq<u8>) -> Seq<u8> {
        orig.subrange(0, self@.span_start as int) + self.spec_replacement_bytes()
            + orig.subrange(self@.span_end as int, orig.len() as int)
    }

    /// The enclosing function's name.
    pub fn function_name(&self) -> (r: &String)
        ensures
            r == &self.function_name,
    {
        &self.function_name
    }

    /// The enclosing function's declared return type, empty for unit.
    pub fn return_type(&self) -> (r: &String)
        ensures
            r == &self.return_type,
    {
        &self.return_type
    }

    /// The replacement source text.
    pub fn replacement_text(&self) -> (r: &String)
        ensures
            r == &self.replacement,
    {
        &self.replacement
    }

    /// Apply this edit to a pristine copy of the file's bytes.
    ///
    /// Everything outside the recorded span is carried over unchanged; the
    /// span itself is replaced by the replacement text's bytes.
    pub fn apply(&self, original: &Vec<u8>) -> (r: Vec<u8>)
        requires
            self.applies_to_len(original@.len()),
        ensures
            r@ == self.spec_apply(original@),
    {
        let mut out: Vec<u8> = Vec::new();
        let mut i: usize = 0;
        while i < self.span_start
            invariant
                i <= self.span_start,
                self.applies_to_len(original@.len()),
                out@ =~= original@.subrange(0, i as int),
            decreases self.span_start - i,
        {
            out.push(original[i]);
            i += 1;
        }
        let rb = self.replacement.as_str().as_bytes();
        let mut j: usize = 0;
        while j < rb.len()
            invariant
                j <= rb@.len(),
                rb@ == self.spec_replacement_bytes(),
                self.applies_to_len(original@.len()),
                out@ =~= original@.subrange(0, self.span_start as int) + rb@.subrange(
                    0,
                    j as int,
                ),
            decreases rb@.len() - j,
        {
            out.push(rb[j]);
            j += 1;
        }
        let mut k: usize = self.span_end;
        while k < original.len()
            invariant
                self.span_end <= k <= original@.len(),
                rb@ == self.spec_replacement_bytes(),
                self.applies_to_len(original@.len()),
                out@ =~= original@.subrange(0, self.span_start as int) + rb@
                    + original@.subrange(self.span_end as int, k as int),
            decreases original@.len() - k,
        {
            out.push(original[k]);
            k += 1;
        }
        proof {
            assert(out@ =~= self.spec_apply(original@));
        }
        out
    }
}

/// The unified diff of two byte texts, as the `similar` crate renders it.
/// The result depends on the two texts alone.
pub uninterp spec fn diff_of(old: Seq<u8>, new: Seq<u8>) -> Seq<char>;

/// Relies on similar::udiff::unified_diff: a line-oriented unified diff of
/// the two texts, computed deterministically from them alone with a fixed
/// algorithm, context width and no file header.
#[verifier::external_body]
fn unified_diff_bytes(old: &Vec<u8>, new: &Vec<u8>) -> (r: String)
    ensures
        r@ == diff_of(old@, new@),
{
    let old_text = String::from_utf8_lossy(old.as_slice());
    let new_text = String::from_utf8_lossy(new.as_slice());
    similar::udiff::unified_diff(similar::Algorithm::Myers, &old_text, &new_text, 3, None)
}

impl Mutation {
    /// Render this edit as a unified diff of the pristine file content
    /// against the same content with the replacement applied.
    pub fn diff(&self, original: &Vec<u8>) -> (r: String)
        requires
            self.applies_to_len(original@.len()),
        ensures
            r@ == diff_of(original@, self.spec_apply(original@)),
    {
        let mutated = self.apply(original);
        unified_diff_bytes(original, &mutated)
    }
}

/// Applying a mutation changes the file only within the recorded span: every
/// byte before the span and every byte after it reappears unchanged, at the
/// same distance from its end of the file.
pub proof fn lemma_apply_changes_only_span(m: Mutation, orig: Seq<u8>)
    requires
        m.applies_to_len(orig.len()),
    ensures
        m.spec_apply(orig).len() == orig.len() - (m@.span_end - m@.span_start)
            + m.spec_replacement_bytes().len(),
        forall|i: int|
            0 <= i < m@.span_start ==> m.spec_apply(orig)[i] == orig[i],
        forall|i: int|
            m@.span_end <= i < orig.len() ==> m.spec_apply(orig)[i - m@.span_end
                + m@.span_start + m.spec_replacement_bytes().len()] == orig[i],
{
}

/// The candidate replacement texts for a return-type genre, in the fixed
/// order in which they are generated.
pub open spec fn spec_candidates(genre: ReturnGenre) -> Seq<Seq<char>> {
    match genre {
        ReturnGenre::Unit => seq!["()"@],
        ReturnGenre::Boolean => seq!["true"@, "false"@],
        ReturnGenre::Integer => seq!["0"@],
        ReturnGenre::Text => seq!["String::new()"@],
        ReturnGenre::Other => seq!["Default::default()"@],
    }
}

/// A site is mutated unless it is test code, annotated to be skipped, or
/// too trivial to bother with.
pub open spec fn spec_eligible(s: SiteView) -> bool {
    !s.is_test && !s.skip && !s.trivial
}

/// The mutation generated for one site and one candidate replacement.
pub open spec fn spec_mutation_of(file: Seq<char>, s: SiteView, replacement: Seq<char>) -> MutationView {
    MutationView {
        file: file,
        line: s.line,
        span_start: s.span_start,
        span_end: s.span_end,
        function_name: s.name,
        return_type: s.return_type,
        replacement: replacement,
    }
}

/// All mutations generated for one site: one per candidate, in candidate
/// order; none when the site is excluded.
pub open spec fn spec_site_mutations(file: Seq<char>, s: SiteView) -> Seq<MutationView> {
    if spec_eligible(s) {
        Seq::new(
            spec_candidates(s.genre).len(),
            |k: int| spec_mutation_of(file, s, spec_candidates(s.genre)[k]),
        )
    } else {
        Seq::empty()
    }
}

/// All mutations of a file's sites, in site order.
pub open spec fn spec_sites_mutations(file: Seq<char>, sites: Seq<SiteView>) -> Seq<MutationView>
    decreases sites.len(),
{
    if sites.len() == 0 {
        Seq::empty()
    } else {
        spec_sites_mutations(file, sites.drop_last()) + spec_site_mutations(file, sites.last())
    }
}

/// All mutations of one scanned file; a file that failed to parse
/// contributes none.
pub open spec fn spec_file_mutations(f: FileScanView) -> Seq<MutationView> {
    if f.parsed {
        spec_sites_mutations(f.path, f.sites)
    } else {
        Seq::empty()
    }
}

/// The full mutation sequence of a scanned tree, in file order, then site
/// order, then candidate order.
pub open spec fn spec_mutations(files: Seq<FileScanView>) -> Seq<MutationView>
    decreases files.len(),
{
    if files.len() == 0 {
        Seq::empty()
    } else {
        spec_mutations(files.drop_last()) + spec_file_mutations(files.last())
    }
}

/// The paths of the files that failed to parse, in file order: the run's
/// scan warnings.
pub open spec fn spec_scan_warnings(files: Seq<FileScanView>) -> Seq<Seq<char>>
    decreases files.len(),
{
    if files.len() == 0 {
        Seq::empty()
    } else {
        spec_scan_warnings(files.drop_last()) + (if files.last().parsed {
            Seq::<Seq<char>>::empty()
        } else {
            seq![files.last().path]
        })
    }
}

/// The models of a sequence of scanned files.
pub open spec fn files_view(files: Seq<SourceFileScan>) -> Seq<FileScanView> {
    files.map_values(|f: SourceFileScan| f@)
}

/// The models of a sequence of mutations.
pub open spec fn mutations_view(ms: Seq<Mutation>) -> Seq<MutationView> {
    ms.map_values(|m: Mutation| m@)
}

/// The models of a sequence of strings.
pub open spec fn strings_view(ss: Seq<String>) -> Seq<Seq<char>> {
    ss.map_values(|s: String| s@)
}

/// The candidate replacement texts for one return-type genre.
pub fn candidate_replacements(genre: ReturnGenre) -> (r: Vec<&'static str>)
    ensures
        r@.map_values(|s: &str| s@) =~= spec_candidates(genre),
{
    match genre {
        ReturnGenre::Unit => vec!["()"],
        ReturnGenre::Boolean => vec!["true", "false"],
        ReturnGenre::Integer => vec!["0"],
        ReturnGenre::Text => vec!["String::new()"],
        ReturnGenre::Other => vec!["Default::default()"],
    }
}

/// Whether a site will be mutated at all.
pub fn site_eligible(s: &FunctionSite) -> (r: bool)
    ensures
        r == spec_eligible(s@),
{
    !s.is_test && !s.skip && !s.trivial
}

/// Walk a scanned tree and synthesize every candidate mutation, in file
/// order, site order, candidate order, together with one warning per file
/// that failed to parse.
///
/// The result is a pure function of the scan, so an unchanged tree always
/// reproduces the identical sequence and ordinal numbering.
pub fn generate_mutations(files: &Vec<SourceFileScan>) -> (r: (Vec<Mutation>, Vec<String>))
    ensures
        mutations_view(r.0@) == spec_mutations(files_view(files@)),
        strings_view(r.1@) == spec_scan_warnings(files_view(files@)),
{
    let ghost fv = files_view(files@);
    let mut muts: Vec<Mutation> = Vec::new();
    let mut warnings: Vec<String> = Vec::new();
    let mut fi: usize = 0;
    while fi < files.len()
        invariant
            fi <= files@.len(),
            fv == files_view(files@),
            mutations_view(muts@) == spec_mutations(fv.take(fi as int)),
            strings_view(warnings@) == spec_scan_warnings(fv.take(fi as int)),
        decreases files@.len() - fi,
    {
        let f = &files[fi];
        let ghost muts_before = mutations_view(muts@);
        if !f.parsed {
            warnings.push(f.path.clone());
        } else {
            let mut si: usize = 0;
            while si < f.sites.len()
                invariant
                    si <= f.sites@.len(),
                    f == &files@[fi as int],
                    fi < files@.len(),
                    fv == files_view(files@),
                    muts_before == spec_mutations(fv.take(fi as int)),
                    mutations_view(muts@) == muts_before + spec_sites_mutations(
                        f.path@,
                        f@.sites.take(si as int),
                    ),
                    strings_view(warnings@) == spec_scan_warnings(fv.take(fi as int)),
                decreases f.sites@.len() - si,
            {
                let s = &f.sites[si];
                let ghost site_base = mutations_view(muts@);
                if site_eligible(s) {
                    let cands = candidate_replacements(s.genre);
                    let mut ci: usize = 0;
                    while ci < cands.len()
                        invariant
                            ci <= cands@.len(),
                            s == &f.sites@[si as int],
                            si < f.sites@.len(),
                            f == &files@[fi as int],
                            fi < files@.len(),
                            cands@.map_values(|c: &str| c@) =~= spec_candidates(s.genre),
                            spec_eligible(s@),
                            site_base == muts_before + spec_sites_mutations(
                                f.path@,
                                f@.sites.take(si as int),
                            ),
                            mutations_view(muts@) == site_base + spec_site_mutations(
                                f.path@,
                                s@,
                            ).take(ci as int),
                        decreases cands@.len() - ci,
                    {
                        let ghost prev = muts@;
                        muts.push(
                            Mutation {
                                file: f.path.clone(),
                                line: s.line,
                                span_start: s.span_start,
                                span_end: s.span_end,
                                function_name: s.name.clone(),
                                return_type: s.return_type.clone(),
                                replacement: String::from_str(cands[ci]),
                            },
                        );
                        ci += 1;
                        proof {
                            let m = muts@.last();
                            assert(cands@.map_values(|c: &str| c@)[ci - 1] == cands@[ci - 1]@);
                            assert(spec_candidates(s@.genre)[ci - 1] == cands@[ci - 1]@);
                            assert(m@ == spec_mutation_of(
                                f.path@,
                                s@,
                                spec_candidates(s@.genre)[ci - 1],
                            ));
                            prev.lemma_push_map_commute(|x: Mutation| x@, m);
                            assert(mutations_view(muts@) =~= mutations_view(prev).push(m@));
                            assert(spec_site_mutations(f.path@, s@).take(ci as int)
                                =~= spec_site_mutations(f.path@, s@).take(ci - 1).push(
                                spec_mutation_of(f.path@, s@, spec_candidates(s@.genre)[ci - 1]),
                            ));
                            assert(mutations_view(muts@) =~= site_base + spec_site_mutations(
                                f.path@,
                                s@,
                            ).take(ci as int));
                        }
                    }
                    proof {
                        assert(spec_site_mutations(f.path@, s@).take(
                            spec_site_mutations(f.path@, s@).len() as int,
                        ) =~= spec_site_mutations(f.path@, s@));
                    }
                }
                si += 1;
                proof {
                    assert(f@.sites.take(si as int).drop_last() =~= f@.sites.take(si - 1));
                    assert(f@.sites.take(si as int).last() == f@.sites[si - 1]);
                    assert(mutations_view(muts@) =~= muts_before + spec_sites_mutations(
                        f.path@,
                        f@.sites.take(si as int),
                    ));
                }
            }
            proof {
                assert(f@.sites.take(f.sites@.len() as int) =~= f@.sites);
            }
        }
        fi += 1;
        proof {
            assert(fv.take(fi as int).drop_last() =~= fv.take(fi - 1));
            assert(fv.take(fi as int).last() == fv[fi - 1]);
            assert(mutations_view(muts@) =~= spec_mutations(fv.take(fi as int)));
            assert(strings_view(warnings@) =~= spec_scan_warnings(fv.take(fi as int)));
        }
    }
    proof {
        assert(fv.take(files@.len() as int) =~= fv);
    }
    (muts, warnings)
}

/// Mutation generation is deterministic: any two generation passes over the
/// same scan of an unchanged tree, each meeting `generate_mutations`'
/// contract, produce the identical, identically ordered mutation sequence.
pub proof fn lemma_generation_deterministic(
    files: Seq<FileScanView>,
    first: Seq<MutationView>,
    second: Seq<MutationView>,
)
    requires
        first == spec_mutations(files),
        second == spec_mutations(files),
    ensures
        first == second,
{
}

/// Sites listed in strictly increasing byte-offset order, as a scan of one
/// file produces them.
pub open spec fn spec_sites_in_offset_order(sites: Seq<SiteView>) -> bool {
    forall|i: int, j: int|
        0 <= i < j < sites.len() ==> (#[trigger] sites[i]).span_start
            <= (#[trigger] sites[j]).span_start
}

/// Mutations listed in nondecreasing byte-offset order.
pub open spec fn spec_mutations_in_offset_order(ms: Seq<MutationView>) -> bool {
    forall|i: int, j: int|
        0 <= i < j < ms.len() ==> (#[trigger] ms[i]).span_start <= (#[trigger] ms[j]).span_start
}

proof fn lemma_sites_mutations_bounded(file: Seq<char>, sites: Seq<SiteView>, bound: nat)
    requires
        forall|j: int| 0 <= j < sites.len() ==> (#[trigger] sites[j]).span_start <= bound,
    ensures
        forall|k: int|
            0 <= k < spec_sites_mutations(file, sites).len() ==> (#[trigger] spec_sites_mutations(
                file,
                sites,
            )[k]).span_start <= bound,
    decreases sites.len(),
{
    if sites.len() > 0 {
        assert forall|j: int| 0 <= j < sites.drop_last().len() implies (#[trigger] sites.drop_last()[j]).span_start
            <= bound by {
            assert(sites.drop_last()[j] == sites[j]);
        }
        lemma_sites_mutations_bounded(file, sites.drop_last(), bound);
        assert(sites.last().span_start <= bound);
        assert forall|k: int| 0 <= k < spec_sites_mutations(file, sites).len() implies (
        #[trigger] spec_sites_mutations(file, sites)[k]).span_start <= bound by {
            let head = spec_sites_mutations(file, sites.drop_last());
            if k < head.len() {
                assert(spec_sites_mutations(file, sites)[k] == head[k]);
            }
        }
    }
}

/// Within one file, mutations are generated in nondecreasing byte-offset
/// order whenever the scan lists its sites in offset order.
pub proof fn lemma_file_mutations_in_offset_order(file: Seq<char>, sites: Seq<SiteView>)
    requires
        spec_sites_in_offset_order(sites),
    ensures
        spec_mutations_in_offset_order(spec_sites_mutations(file, sites)),
    decreases sites.len(),
{
    if sites.len() > 0 {
        assert forall|i: int, j: int|
            0 <= i < j < sites.drop_last().len() implies (#[trigger] sites.drop_last()[i]).span_start
            <= (#[trigger] sites.drop_last()[j]).span_start by {
            assert(sites.drop_last()[i] == sites[i]);
            assert(sites.drop_last()[j] == sites[j]);
        }
        lemma_file_mutations_in_offset_order(file, sites.drop_last());
        assert forall|j: int| 0 <= j < sites.drop_last().len() implies (#[trigger] sites.drop_last()[j]).span_start
            <= sites.last().span_start by {
            assert(sites.drop_last()[j] == sites[j]);
            assert(sites[j].span_start <= sites[sites.len() - 1].span_start);
        }
        lemma_sites_mutations_bounded(file, sites.drop_last(), sites.last().span_start);
        let head = spec_sites_mutations(file, sites.drop_last());
        let tail = spec_site_mutations(file, sites.last());
        assert forall|i: int, j: int|
            0 <= i < j < spec_sites_mutations(file, sites).len() implies (
        #[trigger] spec_sites_mutations(file, sites)[i]).span_start <= (
        #[trigger] spec_sites_mutations(file, sites)[j]).span_start by {
            if i < head.len() {
                assert(spec_sites_mutations(file, sites)[i] == head[i]);
            } else {
                assert(spec_sites_mutations(file, sites)[i] == tail[i - head.len()]);
            }
            if j < head.len() {
                assert(spec_sites_mutations(file, sites)[j] == head[j]);
            } else {
                assert(spec_sites_mutations(file, sites)[j] == tail[j - head.len()]);
            }
        }
    }
}

/// A scanned tree with no eligible site anywhere.
pub open spec fn spec_no_eligible_sites(files: Seq<FileScanView>) -> bool {
    forall|i: int, j: int|
        0 <= i < files.len() && 0 <= j < files[i].sites.len() ==> !spec_eligible(
            #[trigger] files[i].sites[j],
        )
}

proof fn lemma_no_sites_in_file(file: Seq<char>, sites: Seq<SiteView>)
    requires
        forall|j: int| 0 <= j < sites.len() ==> !spec_eligible(#[trigger] sites[j]),
    ensures
        spec_sites_mutations(file, sites).len() == 0,
    decreases sites.len(),
{
    if sites.len() > 0 {
        lemma_no_sites_in_file(file, sites.drop_last());
    }
}

/// A tree with no eligible mutable site generates no mutations at all.
pub proof fn lemma_no_sites_no_mutations(files: Seq<FileScanView>)
    requires
        spec_no_eligible_sites(files),
    ensures
        spec_mutations(files).len() == 0,
    decreases files.len(),
{
    if files.len() > 0 {
        assert(spec_no_eligible_sites(files.drop_last())) by {
            assert forall|i: int, j: int|
                0 <= i < files.drop_last().len() && 0 <= j
                    < files.drop_last()[i].sites.len() implies !spec_eligible(
                #[trigger] files.drop_last()[i].sites[j],
            ) by {
                assert(files.drop_last()[i] == files[i]);
                assert(!spec_eligible(files[i].sites[j]));
            }
        }
        lemma_no_sites_no_mutations(files.drop_last());
        if files.last().parsed {
            assert(forall|j: int|
                0 <= j < files.last().sites.len() ==> !spec_eligible(
                    #[trigger] files.last().sites[j],
                )) by {
                assert(files.last() == files[files.len() - 1]);
            }
            lemma_no_sites_in_file(files.last().path, files.last().sites);
        }
    }
}

} // verus!
