use vstd::prelude::*;
use vstd::string::{StrSliceExecFns, StringExecFns};

use crate::project::{first_occurrences, texts_of, GeometryStartViewRequest};
use crate::text::{chars_of, str_eq};
use crate::text_set::TextSet;
use crate::tokens::{ascii_lowercased, lowercase_ascii};

verus! {

/// A project that the resource server offers: its resource, label and
/// member resources.
#[derive(Clone, Debug, PartialEq, Eq)]
pub struct WebProjectResourceCatalogEntry {
    pub resource: String,
    pub label: String,
    pub members: Vec<String>,
}

/// The resources and projects that the resource server offers.
#[derive(Clone, Debug, PartialEq, Eq)]
pub struct WebResourceCatalog {
    pub resources: Vec<String>,
    pub projects: Vec<WebProjectResourceCatalogEntry>,
}

/// Whether `s` starts with `prefix`.
pub open spec fn has_prefix(s: Seq<char>, prefix: Seq<char>) -> bool {
    s.len() >= prefix.len() && s.take(prefix.len() as int) == prefix
}

/// Whether a resource is an IFC model or a project.
pub open spec fn is_model_resource(s: Seq<char>) -> bool {
    has_prefix(s, "ifc/"@) || has_prefix(s, "project/"@)
}

/// The texts of `texts` that `keep` accepts, in order.
pub open spec fn kept(texts: Seq<Seq<char>>, keep: spec_fn(Seq<char>) -> bool) -> Seq<Seq<char>>
    decreases texts.len(),
{
    if texts.len() == 0 {
        Seq::empty()
    } else if keep(texts.last()) {
        kept(texts.drop_last(), keep).push(texts.last())
    } else {
        kept(texts.drop_last(), keep)
    }
}

/// The resources of a catalog's projects.
pub open spec fn project_resources(projects: Seq<WebProjectResourceCatalogEntry>) -> Seq<
    Seq<char>,
> {
    projects.map_values(|p: WebProjectResourceCatalogEntry| p.resource@)
}

fn starts_with(s: &str, prefix: &str) -> (r: bool)
    ensures
        r == has_prefix(s@, prefix@),
{
    let chars = chars_of(s);
    let wanted = chars_of(prefix);
    if chars.len() < wanted.len() {
        return false;
    }
    let mut i: usize = 0;
    while i < wanted.len()
        invariant
            i <= wanted@.len() <= chars@.len(),
            chars@ == s@,
            wanted@ == prefix@,
            forall|j: int| 0 <= j < i ==> chars@[j] == wanted@[j],
        decreases wanted.len() - i,
    {
        if chars[i] != wanted[i] {
            assert(s@.take(prefix@.len() as int)[i as int] != prefix@[i as int]);
            return false;
        }
        i += 1;
    }
    assert(s@.take(prefix@.len() as int) =~= prefix@);
    true
}

fn is_model_resource_text(s: &str) -> (r: bool)
    ensures
        r == is_model_resource(s@),
{
    proof {
        reveal_strlit("ifc/");
        reveal_strlit("project/");
    }
    starts_with(s, "ifc/") || starts_with(s, "project/")
}

fn is_project_resource_text(s: &str) -> (r: bool)
    ensures
        r == has_prefix(s@, "project/"@),
{
    starts_with(s, "project/")
}

/// The resources a viewer can open: the catalog's IFC and project
/// resources, then the resources of its projects that are project
/// resources, each once, in order.
pub fn resource_catalog_resources(catalog: &WebResourceCatalog) -> (resources: Vec<String>)
    ensures
        texts_of(resources@) == first_occurrences(
            kept(texts_of(catalog.resources@), |s: Seq<char>| is_model_resource(s)) + kept(
                project_resources(catalog.projects@),
                |s: Seq<char>| has_prefix(s, "project/"@),
            ),
        ),
{
    let ghost model = |s: Seq<char>| is_model_resource(s);
    let ghost project = |s: Seq<char>| has_prefix(s, "project/"@);
    let ghost listed = texts_of(catalog.resources@);
    let ghost projects = project_resources(catalog.projects@);
    let mut seen = TextSet::new();
    let mut resources: Vec<String> = Vec::new();
    let ghost mut candidates: Seq<Seq<char>> = Seq::empty();
    let mut k: usize = 0;
    assert(listed.take(0) =~= Seq::<Seq<char>>::empty());
    while k < catalog.resources.len()
        invariant
            k <= listed.len(),
            listed == texts_of(catalog.resources@),
            model == (|s: Seq<char>| is_model_resource(s)),
            candidates == kept(listed.take(k as int), model),
            texts_of(resources@) == first_occurrences(candidates),
            forall|t: Seq<char>| #[trigger] seen.contains(t) <==> candidates.contains(t),
        decreases catalog.resources.len() - k,
    {
        let resource = &catalog.resources[k];
        assert(listed.take(k + 1).drop_last() == listed.take(k as int));
        assert(listed.take(k + 1).last() == resource@);
        if is_model_resource_text(resource.as_str()) {
            let ghost before = candidates;
            proof {
                candidates = candidates.push(resource@);
                crate::project::lemma_first_occurrences_push(before, resource@);
                crate::project::lemma_seq_push_contains(before, resource@);
            }
            if seen.insert(resource.as_str()) {
                let ghost b = resources@;
                let kept_resource = resource.clone();
                let ghost v = kept_resource@;
                resources.push(kept_resource);
                assert(texts_of(resources@) =~= texts_of(b).push(v));
            }
        }
        k += 1;
    }
    assert(listed.take(k as int) == listed);
    let ghost first_part = candidates;
    let mut p: usize = 0;
    assert(projects.take(0) =~= Seq::<Seq<char>>::empty());
    assert(first_part + kept(projects.take(0), project) =~= first_part);
    while p < catalog.projects.len()
        invariant
            p <= projects.len(),
            projects == project_resources(catalog.projects@),
            model == (|s: Seq<char>| is_model_resource(s)),
            project == (|s: Seq<char>| has_prefix(s, "project/"@)),
            first_part == kept(listed, model),
            candidates == first_part + kept(projects.take(p as int), project),
            texts_of(resources@) == first_occurrences(candidates),
            forall|t: Seq<char>| #[trigger] seen.contains(t) <==> candidates.contains(t),
        decreases catalog.projects.len() - p,
    {
        let resource = &catalog.projects[p].resource;
        assert(projects.take(p + 1).drop_last() == projects.take(p as int));
        assert(projects.take(p + 1).last() == resource@);
        if is_project_resource_text(resource.as_str()) {
            let ghost before = candidates;
            proof {
                candidates = candidates.push(resource@);
                assert(kept(projects.take(p + 1), project) == kept(projects.take(p as int), project).push(resource@));
                assert(candidates =~= first_part + kept(projects.take(p + 1), project));
                crate::project::lemma_first_occurrences_push(before, resource@);
                crate::project::lemma_seq_push_contains(before, resource@);
            }
            if seen.insert(resource.as_str()) {
                let ghost b = resources@;
                let kept_resource = resource.clone();
                let ghost v = kept_resource@;
                resources.push(kept_resource);
                assert(texts_of(resources@) =~= texts_of(b).push(v));
            }
        }
        proof {
            if !has_prefix(resource@, "project/"@) {
                assert(kept(projects.take(p + 1), project) == kept(projects.take(p as int), project));
            }
        }
        p += 1;
    }
    assert(projects.take(p as int) == projects);
    resources
}

/// `s` with every leading repetition of `prefix` removed.
pub open spec fn strip_repeated_prefix(s: Seq<char>, prefix: Seq<char>) -> Seq<char>
    decreases s.len(),
{
    if prefix.len() > 0 && has_prefix(s, prefix) {
        strip_repeated_prefix(s.skip(prefix.len() as int), prefix)
    } else {
        s
    }
}

fn strip_prefix_repeatedly<'a>(s: &'a str, prefix: &str) -> (r: &'a str)
    requires
        prefix@.len() > 0,
    ensures
        r@ == strip_repeated_prefix(s@, prefix@),
{
    let n = chars_of(s).len();
    let step = chars_of(prefix).len();
    let mut start: usize = 0;
    let mut rest: &str = s;
    assert(s@.skip(0) =~= s@);
    while starts_with(rest, prefix)
        invariant
            step == prefix@.len() > 0,
            n == s@.len(),
            start <= n,
            rest@ == s@.skip(start as int),
            strip_repeated_prefix(s@, prefix@) == strip_repeated_prefix(rest@, prefix@),
        decreases n - start,
    {
        let ghost old_rest = rest@;
        assert(strip_repeated_prefix(old_rest, prefix@) == strip_repeated_prefix(
            old_rest.skip(step as int),
            prefix@,
        ));
        start = start + step;
        rest = s.substring_char(start, n);
        assert(rest@ =~= s@.skip(start as int));
        assert(rest@ =~= old_rest.skip(step as int));
    }
    rest
}

/// The label shown for a resource: its name without the kind prefix, and
/// a note for the demo with per-instance colors.
pub open spec fn resource_label(resource: Seq<char>) -> Seq<char> {
    if resource == "demo/mapped-pentagon-pair"@ {
        "mapped-pentagon-pair (per-instance color)"@
    } else if has_prefix(resource, "demo/"@) {
        strip_repeated_prefix(resource, "demo/"@)
    } else if has_prefix(resource, "ifc/"@) {
        strip_repeated_prefix(resource, "ifc/"@)
    } else if has_prefix(resource, "project/"@) {
        strip_repeated_prefix(resource, "project/"@)
    } else {
        resource
    }
}

/// The label shown for a resource.
pub fn friendly_resource_label(resource: &str) -> (label: &str)
    ensures
        label@ == resource_label(resource@),
{
    proof {
        reveal_strlit("demo/");
        reveal_strlit("ifc/");
        reveal_strlit("project/");
    }
    if str_eq(resource, "demo/mapped-pentagon-pair") {
        "mapped-pentagon-pair (per-instance color)"
    } else if starts_with(resource, "demo/") {
        strip_prefix_repeatedly(resource, "demo/")
    } else if starts_with(resource, "ifc/") {
        strip_prefix_repeatedly(resource, "ifc/")
    } else if starts_with(resource, "project/") {
        strip_prefix_repeatedly(resource, "project/")
    } else {
        resource
    }
}

/// The name of a start view request in the viewer's state.
pub fn web_view_mode_name(request: &GeometryStartViewRequest) -> (name: &'static str)
    ensures
        name@ == match request {
            GeometryStartViewRequest::Default => "default"@,
            GeometryStartViewRequest::Minimal(_) => "minimal"@,
            GeometryStartViewRequest::All => "all"@,
            GeometryStartViewRequest::Elements(_) => "elements"@,
        },
{
    match request {
        GeometryStartViewRequest::Default => "default",
        GeometryStartViewRequest::Minimal(_) => "minimal",
        GeometryStartViewRequest::All => "all",
        GeometryStartViewRequest::Elements(_) => "elements",
    }
}

/// `s[i..j]` is one of the pieces of `s` split at `-`.
pub open spec fn is_segment(s: Seq<char>, i: int, j: int) -> bool {
    &&& 0 <= i <= j <= s.len()
    &&& i == 0 || s[i - 1] == '-'
    &&& j == s.len() || s[j] == '-'
    &&& forall|k: int| i <= k < j ==> s[k] != '-'
}

/// Whether `word` is one of the pieces of `s` split at `-`.
pub open spec fn has_token(s: Seq<char>, word: Seq<char>) -> bool {
    exists|i: int, j: int| is_segment(s, i, j) && #[trigger] s.subrange(i, j) == word
}

/// Whether `word` is a piece of `s` that ends before `limit`.
spec fn has_token_before(s: Seq<char>, word: Seq<char>, limit: int) -> bool {
    exists|i: int, j: int| is_segment(s, i, j) && j < limit && #[trigger] s.subrange(i, j) == word
}

/// Which pointer interactions the tool picker allows.
#[derive(Clone, Copy, Debug, PartialEq, Eq, Structural)]
pub struct WebInteractionMode {
    pub orbit: bool,
    pub pick: bool,
    pub pan: bool,
}

/// The interactions a picker value allows: the tools it names among its
/// `-`-separated pieces; orbiting when it names none and is not `none`;
/// and panning whenever orbiting.
pub open spec fn picker_mode(value: Seq<char>) -> WebInteractionMode {
    let orbit_named = has_token(value, "orbit"@);
    let pick_named = has_token(value, "pick"@);
    let pan_named = has_token(value, "pan"@);
    let orbit = orbit_named || (!pick_named && !pan_named && value != "none"@);
    WebInteractionMode { orbit, pick: pick_named, pan: pan_named || orbit }
}

fn segment_equals(chars: &Vec<char>, i: usize, j: usize, word: &Vec<char>) -> (r: bool)
    requires
        i <= j <= chars@.len(),
    ensures
        r == (chars@.subrange(i as int, j as int) == word@),
{
    if j - i != word.len() {
        return false;
    }
    let mut k: usize = 0;
    while k < word.len()
        invariant
            i <= j <= chars@.len(),
            j - i == word@.len(),
            k <= word@.len(),
            forall|m: int| 0 <= m < k ==> chars@[i + m] == word@[m],
        decreases word.len() - k,
    {
        if chars[i + k] != word[k] {
            assert(chars@.subrange(i as int, j as int)[k as int] != word@[k as int]);
            return false;
        }
        k += 1;
    }
    assert(chars@.subrange(i as int, j as int) =~= word@);
    true
}

proof fn lemma_segment_step(s: Seq<char>, word: Seq<char>, start: int, k: int)
    requires
        0 <= start <= k <= s.len(),
        start == 0 || s[start - 1] == '-',
        k == s.len() || s[k] == '-',
        forall|m: int| start <= m < k ==> s[m] != '-',
    ensures
        is_segment(s, start, k),
        has_token_before(s, word, k + 1) <==> (has_token_before(s, word, start) || s.subrange(
            start,
            k,
        ) == word),
{
    if has_token_before(s, word, k + 1) {
        let (i, j) = choose|i: int, j: int|
            is_segment(s, i, j) && j < k + 1 && #[trigger] s.subrange(i, j) == word;
        if j >= start {
            if j < k {
                assert(s[j] != '-');
            }
            if i < start {
                assert(s[start - 1] == '-');
            }
            if i > start {
                assert(s[i - 1] != '-');
            }
            assert(i == start && j == k);
        }
    }
    if s.subrange(start, k) == word {
        assert(is_segment(s, start, k));
    }
}

impl WebInteractionMode {
    /// The interactions that a tool picker value allows.
    pub fn from_picker_value(value: &str) -> (mode: WebInteractionMode)
        ensures
            mode == picker_mode(value@),
    {
        proof {
            reveal_strlit("orbit");
            reveal_strlit("pick");
            reveal_strlit("pan");
        }
        let chars = chars_of(value);
        let orbit_word = chars_of("orbit");
        let pick_word = chars_of("pick");
        let pan_word = chars_of("pan");
        let n = chars.len();
        let mut orbit = false;
        let mut pick = false;
        let mut pan = false;
        let mut start: usize = 0;
        let mut k: usize = 0;
        while k < n
            invariant
                n == chars@.len(),
                chars@ == value@,
                orbit_word@ == "orbit"@,
                pick_word@ == "pick"@,
                pan_word@ == "pan"@,
                start <= k <= n,
                start == 0 || chars@[start - 1] == '-',
                forall|m: int| start <= m < k ==> chars@[m] != '-',
                orbit == has_token_before(chars@, "orbit"@, start as int),
                pick == has_token_before(chars@, "pick"@, start as int),
                pan == has_token_before(chars@, "pan"@, start as int),
            decreases n - k,
        {
            if chars[k] == '-' {
                proof {
                    lemma_segment_step(chars@, "orbit"@, start as int, k as int);
                    lemma_segment_step(chars@, "pick"@, start as int, k as int);
                    lemma_segment_step(chars@, "pan"@, start as int, k as int);
                }
                if segment_equals(&chars, start, k, &orbit_word) {
                    orbit = true;
                }
                if segment_equals(&chars, start, k, &pick_word) {
                    pick = true;
                }
                if segment_equals(&chars, start, k, &pan_word) {
                    pan = true;
                }
                start = k + 1;
            }
            k += 1;
        }
        proof {
            lemma_segment_step(chars@, "orbit"@, start as int, n as int);
            lemma_segment_step(chars@, "pick"@, start as int, n as int);
            lemma_segment_step(chars@, "pan"@, start as int, n as int);
        }
        if segment_equals(&chars, start, n, &orbit_word) {
            orbit = true;
        }
        if segment_equals(&chars, start, n, &pick_word) {
            pick = true;
        }
        if segment_equals(&chars, start, n, &pan_word) {
            pan = true;
        }
        proof {
            assert forall|word: Seq<char>| #[trigger] has_token(chars@, word) == has_token_before(
                chars@,
                word,
                n + 1,
            ) by {
                if has_token(chars@, word) {
                    let (i, j) = choose|i: int, j: int|
                        is_segment(chars@, i, j) && #[trigger] chars@.subrange(i, j) == word;
                    assert(has_token_before(chars@, word, n + 1));
                }
            }
        }
        let none = str_eq(value, "none");
        if !orbit && !pick && !pan && !none {
            orbit = true;
        }
        if orbit {
            pan = true;
        }
        WebInteractionMode { orbit, pick, pan }
    }

    pub fn can_orbit(self) -> (r: bool)
        ensures
            r == self.orbit,
    {
        self.orbit
    }

    pub fn can_pick(self) -> (r: bool)
        ensures
            r == self.pick,
    {
        self.pick
    }

    pub fn can_pan(self) -> (r: bool)
        ensures
            r == self.pan,
    {
        self.pan
    }
}

/// Whether an element tag names a text entry control (`input`, `textarea`
/// or `select`, in any ASCII case), whose key presses the viewer leaves
/// alone.
pub open spec fn is_text_input_tag_name(tag: Seq<char>) -> bool {
    let t = ascii_lowercased(tag);
    t == "input"@ || t == "textarea"@ || t == "select"@
}

/// Whether a keyboard event aimed at an element with this tag name goes to
/// a text entry control.
pub fn is_text_input_tag(tag_name: &str) -> (r: bool)
    ensures
        r == is_text_input_tag_name(tag_name@),
{
    let lowered = lowercase_ascii(tag_name);
    let t = lowered.as_str();
    str_eq(t, "input") || str_eq(t, "textarea") || str_eq(t, "select")
}

/// `s` without its leading copies of `c`.
pub open spec fn trim_leading(s: Seq<char>, c: char) -> Seq<char>
    decreases s.len(),
{
    if s.len() > 0 && s[0] == c {
        trim_leading(s.drop_first(), c)
    } else {
        s
    }
}

/// The pieces of `s` between its separators `sep`, in order; a text with
/// no separator is one piece.
pub open spec fn split_on(s: Seq<char>, sep: char) -> Seq<Seq<char>>
    decreases s.len(),
{
    if s.len() == 0 {
        seq![Seq::<char>::empty()]
    } else {
        let prev = split_on(s.drop_last(), sep);
        if s.last() == sep {
            prev.push(Seq::<char>::empty())
        } else {
            prev.drop_last().push(prev.last().push(s.last()))
        }
    }
}

proof fn lemma_split_on_not_empty(s: Seq<char>, sep: char)
    ensures
        split_on(s, sep).len() >= 1,
    decreases s.len(),
{
    if s.len() > 0 {
        lemma_split_on_not_empty(s.drop_last(), sep);
    }
}

/// The value of a query pair whose key, the text before its first `=`, is
/// `resource`, when that value is not empty.
pub open spec fn resource_pair_value(pair: Seq<char>) -> Option<Seq<char>> {
    if has_prefix(pair, "resource="@) && pair.len() > 9 {
        Some(pair.skip(9))
    } else {
        None
    }
}

/// The `resource` values among query pairs, in order.
pub open spec fn resource_values(pairs: Seq<Seq<char>>) -> Seq<Seq<char>>
    decreases pairs.len(),
{
    if pairs.len() == 0 {
        Seq::empty()
    } else {
        let prev = resource_values(pairs.drop_last());
        match resource_pair_value(pairs.last()) {
            Some(v) => prev.push(v),
            None => prev,
        }
    }
}

/// The `resource` values of a location's query string: the string without
/// its leading `?`s, split into `&`-separated pairs.
pub open spec fn search_resource_values(search: Seq<char>) -> Seq<Seq<char>> {
    resource_values(split_on(trim_leading(search, '?'), '&'))
}

fn push_resource_value(values: &mut Vec<String>, search: &str, start: usize, end: usize)
    requires
        start <= end <= search@.len(),
    ensures
        texts_of(final(values)@) == match resource_pair_value(search@.subrange(start as int, end as int)) {
            Some(v) => texts_of(old(values)@).push(v),
            None => texts_of(old(values)@),
        },
{
    proof {
        reveal_strlit("resource=");
    }
    let pair = search.substring_char(start, end);
    if end - start > 9 && starts_with(pair, "resource=") {
        let value = search.substring_char(start + 9, end);
        let ghost before = values@;
        let owned = value.to_owned();
        values.push(owned);
        assert(value@ =~= pair@.skip(9));
        assert(texts_of(values@) =~= texts_of(before).push(pair@.skip(9)));
    }
}

/// The resources that a location's query string asks for, still
/// percent-encoded, in order: the caller opens the first one that decodes.
pub fn resource_search_values(search: &str) -> (values: Vec<String>)
    ensures
        texts_of(values@) == search_resource_values(search@),
{
    let chars = chars_of(search);
    let n = chars.len();
    let mut t: usize = 0;
    assert(search@.skip(0) =~= search@);
    while t < n && chars[t] == '?'
        invariant
            t <= n,
            n == search@.len(),
            chars@ == search@,
            trim_leading(search@, '?') == trim_leading(search@.skip(t as int), '?'),
        decreases n - t,
    {
        assert(search@.skip(t + 1) =~= search@.skip(t as int).drop_first());
        t += 1;
    }
    assert(trim_leading(search@, '?') == search@.subrange(t as int, n as int));
    let mut values: Vec<String> = Vec::new();
    let mut start: usize = t;
    let mut k: usize = t;
    assert(search@.subrange(t as int, t as int) =~= Seq::<char>::empty());
    assert(split_on(Seq::<char>::empty(), '&').drop_last() =~= Seq::<Seq<char>>::empty());
    while k < n
        invariant
            t <= start <= k <= n,
            n == search@.len(),
            chars@ == search@,
            split_on(search@.subrange(t as int, k as int), '&').len() >= 1,
            split_on(search@.subrange(t as int, k as int), '&').last() == search@.subrange(
                start as int,
                k as int,
            ),
            texts_of(values@) == resource_values(
                split_on(search@.subrange(t as int, k as int), '&').drop_last(),
            ),
        decreases n - k,
    {
        let ghost p = search@.subrange(t as int, k as int);
        let ghost pieces = split_on(p, '&');
        let ghost q = search@.subrange(t as int, k + 1);
        assert(q.drop_last() =~= p);
        assert(q.last() == chars@[k as int]);
        if chars[k] == '&' {
            push_resource_value(&mut values, search, start, k);
            assert(split_on(q, '&') == pieces.push(Seq::<char>::empty()));
            assert(split_on(q, '&').drop_last() =~= pieces);
            start = k + 1;
            assert(search@.subrange(start as int, k + 1) =~= Seq::<char>::empty());
        } else {
            assert(split_on(q, '&') == pieces.drop_last().push(pieces.last().push(chars@[k as int])));
            assert(split_on(q, '&').drop_last() =~= pieces.drop_last());
            assert(search@.subrange(start as int, k + 1) =~= search@.subrange(
                start as int,
                k as int,
            ).push(chars@[k as int]));
        }
        k += 1;
    }
    push_resource_value(&mut values, search, start, n);
    values
}

/// The resource a viewer opens first: the requested one when the viewer
/// offers it, else the default resource when offered, else the first
/// offered, else the default resource.
pub open spec fn initial_resource(requested: Option<Seq<char>>, resources: Seq<Seq<char>>) -> Seq<
    char,
> {
    let fallback = "ifc/building-architecture"@;
    if requested is Some && resources.contains(requested->0) {
        requested->0
    } else if resources.contains(fallback) {
        fallback
    } else if resources.len() > 0 {
        resources[0]
    } else {
        fallback
    }
}

fn offered_index(resources: &[String], wanted: &str) -> (r: Option<usize>)
    ensures
        match r {
            Some(i) => i < resources@.len() && resources@[i as int]@ == wanted@,
            None => !texts_of(resources@).contains(wanted@),
        },
{
    let mut k: usize = 0;
    while k < resources.len()
        invariant
            k <= resources@.len(),
            forall|i: int| 0 <= i < k ==> resources@[i]@ != wanted@,
        decreases resources.len() - k,
    {
        if str_eq(resources[k].as_str(), wanted) {
            return Some(k);
        }
        k += 1;
    }
    proof {
        if texts_of(resources@).contains(wanted@) {
            let i = choose|i: int| 0 <= i < texts_of(resources@).len() && texts_of(resources@)[i]
                == wanted@;
            assert(resources@[i]@ == wanted@);
        }
    }
    None
}

/// The resource a viewer opens first, given the resource its location asks
/// for and the resources it offers.
pub fn initial_web_resource(requested: Option<&str>, resources: &[String]) -> (resource: String)
    ensures
        resource@ == initial_resource(
            match requested {
                Some(r) => Some(r@),
                None => None,
            },
            texts_of(resources@),
        ),
{
    if let Some(wanted) = requested {
        if let Some(i) = offered_index(resources, wanted) {
            assert(texts_of(resources@)[i as int] == wanted@);
            return wanted.to_owned();
        }
    }
    if let Some(i) = offered_index(resources, "ifc/building-architecture") {
        assert(texts_of(resources@)[i as int] == "ifc/building-architecture"@);
        return resources[i].clone();
    }
    if resources.len() > 0 {
        return resources[0].clone();
    }
    String::from_str("ifc/building-architecture")
}

/// The catalog a viewer opened from a file uses: the default resource
/// alone, with no projects.
pub fn local_web_resource_catalog() -> (catalog: WebResourceCatalog)
    ensures
        texts_of(catalog.resources@) == seq!["ifc/building-architecture"@],
        catalog.projects@.len() == 0,
{
    let mut resources: Vec<String> = Vec::new();
    resources.push(String::from_str("ifc/building-architecture"));
    assert(texts_of(resources@) =~= seq!["ifc/building-architecture"@]);
    WebResourceCatalog { resources, projects: Vec::new() }
}

/// The catalog a viewer takes from the resource server's answer: the IFC
/// and project resources of the answer, in order, with its projects; an
/// answer without any such resource is refused.
pub fn served_resource_catalog(catalog: WebResourceCatalog) -> (r: Result<
    WebResourceCatalog,
    String,
>)
    ensures
        ({
            let models = kept(texts_of(catalog.resources@), |s: Seq<char>| is_model_resource(s));
            &&& models.len() == 0 ==> (r matches Err(e) && e@
                == "server returned an empty resource catalog"@)
            &&& models.len() > 0 ==> (r matches Ok(c) && texts_of(c.resources@) == models
                && c.projects == catalog.projects)
        }),
{
    let ghost model = |s: Seq<char>| is_model_resource(s);
    let ghost listed = texts_of(catalog.resources@);
    let mut resources: Vec<String> = Vec::new();
    let mut k: usize = 0;
    assert(listed.take(0) =~= Seq::<Seq<char>>::empty());
    while k < catalog.resources.len()
        invariant
            k <= listed.len(),
            listed == texts_of(catalog.resources@),
            model == (|s: Seq<char>| is_model_resource(s)),
            texts_of(resources@) == kept(listed.take(k as int), model),
        decreases catalog.resources.len() - k,
    {
        let resource = &catalog.resources[k];
        assert(listed.take(k + 1).drop_last() == listed.take(k as int));
        assert(listed.take(k + 1).last() == resource@);
        if is_model_resource_text(resource.as_str()) {
            let ghost b = resources@;
            let kept_resource = resource.clone();
            let ghost v = kept_resource@;
            resources.push(kept_resource);
            assert(texts_of(resources@) =~= texts_of(b).push(v));
        }
        k += 1;
    }
    assert(listed.take(k as int) == listed);
    if resources.len() == 0 {
        return Err(String::from_str("server returned an empty resource catalog"));
    }
    Ok(WebResourceCatalog { resources, projects: catalog.projects })
}

/// The resource a viewer opens first is always one it offers, unless it
/// offers none, when it is the default resource; a requested resource that
/// is offered always wins.
pub proof fn lemma_initial_resource_is_offered(
    requested: Option<Seq<char>>,
    resources: Seq<Seq<char>>,
)
    ensures
        resources.len() > 0 ==> resources.contains(initial_resource(requested, resources)),
        resources.len() == 0 ==> initial_resource(requested, resources)
            == "ifc/building-architecture"@,
        requested is Some && resources.contains(requested->0) ==> initial_resource(
            requested,
            resources,
        ) == requested->0,
        (requested is None || !resources.contains(requested->0)) && resources.contains(
            "ifc/building-architecture"@,
        ) ==> initial_resource(requested, resources) == "ifc/building-architecture"@,
{
    if resources.len() > 0 {
        assert(resources[0] == resources[0]);
    }
}

/// The resources kept from a served catalog are exactly its IFC and
/// project resources, in order: each kept one starts with `ifc/` or
/// `project/`, and every listed resource that does is kept.
pub proof fn lemma_served_resources_are_models(texts: Seq<Seq<char>>)
    ensures
        ({
            let models = kept(texts, |s: Seq<char>| is_model_resource(s));
            &&& forall|i: int|
                0 <= i < models.len() ==> has_prefix(#[trigger] models[i], "ifc/"@) || has_prefix(
                    models[i],
                    "project/"@,
                )
            &&& forall|i: int|
                0 <= i < models.len() ==> texts.contains(#[trigger] models[i])
            &&& forall|t: Seq<char>|
                #[trigger] texts.contains(t) && (has_prefix(t, "ifc/"@) || has_prefix(
                    t,
                    "project/"@,
                )) ==> models.contains(t)
            &&& models.len() <= texts.len()
        }),
    decreases texts.len(),
{
    let keep = |s: Seq<char>| is_model_resource(s);
    if texts.len() > 0 {
        lemma_served_resources_are_models(texts.drop_last());
        let prev = kept(texts.drop_last(), keep);
        let models = kept(texts, keep);
        assert forall|i: int| 0 <= i < models.len() implies texts.contains(#[trigger] models[i]) by {
            if i < prev.len() {
                assert(models[i] == prev[i]);
                let j = choose|j: int| 0 <= j < texts.drop_last().len() && texts.drop_last()[j] == prev[i];
                assert(texts[j] == prev[i]);
            } else {
                assert(models[i] == texts.last());
                assert(texts[texts.len() - 1] == texts.last());
            }
        }
        assert forall|i: int| 0 <= i < models.len() implies has_prefix(#[trigger] models[i], "ifc/"@)
            || has_prefix(models[i], "project/"@) by {
            if i < prev.len() {
                assert(models[i] == prev[i]);
            }
        }
        assert forall|t: Seq<char>|
            #[trigger] texts.contains(t) && (has_prefix(t, "ifc/"@) || has_prefix(t, "project/"@))
                implies models.contains(t) by {
            let j = choose|j: int| 0 <= j < texts.len() && texts[j] == t;
            if j < texts.len() - 1 {
                assert(texts.drop_last()[j] == t);
                assert(texts.drop_last().contains(t));
                assert(prev.contains(t));
                let w = choose|w: int| 0 <= w < prev.len() && prev[w] == t;
                assert(models[w] == t);
            } else {
                assert(models[models.len() - 1] == t);
            }
        }
    }
}

proof fn lemma_strip_repeated_prefix_suffix(s: Seq<char>, prefix: Seq<char>)
    requires
        prefix.len() > 0,
    ensures
        strip_repeated_prefix(s, prefix).len() <= s.len(),
        strip_repeated_prefix(s, prefix) == s.skip(s.len() - strip_repeated_prefix(s, prefix).len()),
        !has_prefix(strip_repeated_prefix(s, prefix), prefix),
    decreases s.len(),
{
    if has_prefix(s, prefix) {
        let rest = s.skip(prefix.len() as int);
        lemma_strip_repeated_prefix_suffix(rest, prefix);
        let r = strip_repeated_prefix(rest, prefix);
        assert(rest.skip(rest.len() - r.len()) =~= s.skip(s.len() - r.len()));
    } else {
        assert(s.skip(0) =~= s);
    }
}

/// The label of a resource is the resource itself with its `demo/`, `ifc/`
/// or `project/` kind prefix taken off (every repetition of it), so it ends
/// the resource text and no longer starts with that prefix; resources of no
/// such kind keep their name; only the pentagon-pair demo gets a note.
pub proof fn lemma_resource_label_is_name(resource: Seq<char>)
    ensures
        resource != "demo/mapped-pentagon-pair"@ ==> {
            let label = resource_label(resource);
            &&& label.len() <= resource.len()
            &&& label == resource.skip(resource.len() - label.len())
        },
        resource != "demo/mapped-pentagon-pair"@ && has_prefix(resource, "ifc/"@) ==> !has_prefix(
            resource_label(resource),
            "ifc/"@,
        ),
        resource != "demo/mapped-pentagon-pair"@ && has_prefix(resource, "project/"@) && !has_prefix(
            resource,
            "demo/"@,
        ) && !has_prefix(resource, "ifc/"@) ==> !has_prefix(resource_label(resource), "project/"@),
        !has_prefix(resource, "demo/"@) && !has_prefix(resource, "ifc/"@) && !has_prefix(
            resource,
            "project/"@,
        ) ==> resource_label(resource) == resource,
{
    reveal_strlit("demo/");
    reveal_strlit("ifc/");
    reveal_strlit("project/");
    reveal_strlit("demo/mapped-pentagon-pair");
    assert("demo/"@.len() == 5 && "ifc/"@.len() == 4 && "project/"@.len() == 8);
    lemma_strip_repeated_prefix_suffix(resource, "demo/"@);
    lemma_strip_repeated_prefix_suffix(resource, "ifc/"@);
    lemma_strip_repeated_prefix_suffix(resource, "project/"@);
    assert(resource.skip(0) =~= resource);
    if has_prefix(resource, "ifc/"@) && has_prefix(resource, "demo/"@) {
        assert(resource[0] == "ifc/"@[0] && resource[0] == "demo/"@[0]);
    }
    if resource == "demo/mapped-pentagon-pair"@ {
        assert(has_prefix(resource, "demo/"@) ==> resource[0] == 'd');
    }
    if has_prefix(resource, "ifc/"@) {
        assert(resource != "demo/mapped-pentagon-pair"@ || resource[0] == 'd');
    }
    assert("demo/mapped-pentagon-pair"@.len() == 25);
    assert("demo/mapped-pentagon-pair"@.take(5) =~= "demo/"@);
    assert(has_prefix("demo/mapped-pentagon-pair"@, "demo/"@));
}

/// Every resource value read from a query string is non-empty.
pub proof fn lemma_resource_values_not_empty(pairs: Seq<Seq<char>>)
    ensures
        forall|i: int|
            0 <= i < resource_values(pairs).len() ==> #[trigger] resource_values(pairs)[i].len()
                > 0,
        resource_values(pairs).len() <= pairs.len(),
    decreases pairs.len(),
{
    if pairs.len() > 0 {
        lemma_resource_values_not_empty(pairs.drop_last());
        let prev = resource_values(pairs.drop_last());
        let v = resource_values(pairs);
        assert forall|i: int| 0 <= i < v.len() implies #[trigger] v[i].len() > 0 by {
            if i < prev.len() {
                assert(v[i] == prev[i]);
            }
        }
    }
}

} // verus!
