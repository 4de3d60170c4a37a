//! Delete-path resolution, the safety guards around it, and the order in which a
//! delete proceeds.
//!
//! This module decides which directory on a NAS gets handed to a *recursive* File
//! Station delete, and there is no undo. The governing rule is: **refuse rather
//! than guess.** Every uncertainty resolves to an [`Error::UnsafePath`], and the
//! task is left completely untouched.
//!
//! The on-disk name comes from the file list when its entries share a single
//! top-level component; a file list whose entries share none is refused; with no
//! file list at all the title is the name. The destination is normalized and the
//! two are joined as `/{destination}/{name}`.

use vstd::prelude::*;
use vstd::string::StringExecFns;
use crate::error::Error;
use crate::model::{Task, TaskFile, TaskStatus};
use crate::text::{
    all_digits, chars_of, debug_form, decimal, decimal_of, is_digit, is_segment, is_space, join, joined,
    law_splitting_is_undone_by_joining, lemma_part_is_a_segment, lemma_segment_is_a_part,
    lemma_split_nonempty, quoted, same_text, space, split, split_on, starts_with, text_between, views,
};

verus! {

// ---------------------------------------------------------------------------
// Names
// ---------------------------------------------------------------------------

/// What stands before the first slash.
pub open spec fn first_part(s: Seq<char>) -> Seq<char>
    decreases s.len(),
{
    if s.len() == 0 || s[0] == '/' {
        Seq::empty()
    } else {
        seq![s[0]] + first_part(s.skip(1))
    }
}

/// The first component of a relative path, where it is a usable one.
pub open spec fn first_name(s: Seq<char>) -> Option<Seq<char>> {
    if first_part(s).len() == 0 {
        None
    } else {
        Some(first_part(s))
    }
}

/// The file names of a list.
pub open spec fn filenames(files: Seq<TaskFile>) -> Seq<Seq<char>> {
    files.map_values(|f: TaskFile| f.filename@)
}

/// The one usable first component that every name of a list has.
pub open spec fn shared_root(names: Seq<Seq<char>>) -> Option<Seq<char>> {
    if names.len() > 0 && first_name(names[0]) is Some && (forall|i: int|
        0 <= i < names.len() ==> first_name(#[trigger] names[i]) == first_name(names[0])) {
        first_name(names[0])
    } else {
        None
    }
}

/// Where the first slash of `chars[from..]` stands, or the end.
fn slash_from(chars: &[char], from: usize) -> (at: usize)
    requires
        from <= chars@.len(),
    ensures
        from <= at <= chars@.len(),
        first_part(chars@.skip(from as int)) == chars@.subrange(from as int, at as int),
        at < chars@.len() ==> chars@[at as int] == '/',
{
    let mut at: usize = from;
    proof {
        assert(chars@.subrange(from as int, from as int) =~= Seq::<char>::empty());
        assert(Seq::<char>::empty() + first_part(chars@.skip(from as int)) =~= first_part(
            chars@.skip(from as int),
        ));
    }
    while at < chars.len() && chars[at] != '/'
        invariant
            from <= at <= chars@.len(),
            first_part(chars@.skip(from as int)) == chars@.subrange(from as int, at as int)
                + first_part(chars@.skip(at as int)),
        decreases chars@.len() - at,
    {
        proof {
            assert(chars@.skip(at as int)[0] == chars@[at as int]);
            assert(chars@.skip(at as int).skip(1) =~= chars@.skip(at + 1));
            assert(chars@.subrange(from as int, at as int) + (seq![chars@[at as int]] + first_part(
                chars@.skip(at + 1),
            )) =~= chars@.subrange(from as int, at + 1) + first_part(chars@.skip(at + 1)));
        }
        at += 1;
    }
    proof {
        if at < chars@.len() {
            assert(chars@.skip(at as int)[0] == '/');
        }
        assert(chars@.subrange(from as int, at as int) + Seq::<char>::empty() =~= chars@.subrange(
            from as int,
            at as int,
        ));
    }
    at
}

/// The first `/`-separated component of a relative path, or `None` when there is
/// not a usable one.
fn first_component(filename: &str) -> (first: Option<String>)
    ensures
        crate::text::opt_view(first) == first_name(filename@),
{
    let chars = chars_of(filename);
    proof {
        assert(chars@.skip(0) =~= chars@);
    }
    let at = slash_from(chars.as_slice(), 0);
    if at == 0 {
        None
    } else {
        Some(text_between(chars.as_slice(), 0, at))
    }
}

/// The shared top-level component of a torrent's file list, if there is exactly
/// one. `None` means **refuse**, never "guess from the title".
pub fn common_root(files: &[TaskFile]) -> (root: Option<String>)
    ensures
        crate::text::opt_view(root) == shared_root(filenames(files@)),
        match root {
            Some(r) => files@.len() > 0 && r@.len() > 0 && all_begin_with(files@, r@),
            None => forall|r: Seq<char>| #[trigger]
                all_begin_with(files@, r) ==> r.len() == 0 || files@.len() == 0,
        },
{
    proof {
        assert forall|r: Seq<char>| #[trigger] all_begin_with(files@, r) && shared_root(
            filenames(files@),
        ) is None implies r.len() == 0 || files@.len() == 0 by {
            law_the_root_is_every_files_first_component(files@, r);
        }
        if shared_root(filenames(files@)) is Some {
            law_the_root_is_every_files_first_component(
                files@,
                shared_root(filenames(files@))->0,
            );
        }
    }
    let ghost names = filenames(files@);
    if files.len() == 0 {
        return None;
    }
    let first = match first_component(files[0].filename.as_str()) {
        Some(first) => first,
        None => {
            return None;
        },
    };
    let mut i: usize = 1;
    while i < files.len()
        invariant
            1 <= i <= files@.len(),
            names == filenames(files@),
            first_name(names[0]) == Some(first@),
            forall|k: int| 0 <= k < i ==> first_name(#[trigger] names[k]) == Some(first@),
            forall|r: Seq<char>| #[trigger]
                all_begin_with(files@, r) && shared_root(names) is None ==> r.len() == 0
                    || files@.len() == 0,
        decreases files@.len() - i,
    {
        let same = match first_component(files[i].filename.as_str()) {
            Some(next) => same_text(next.as_str(), first.as_str()),
            None => false,
        };
        if !same {
            proof {
                assert(first_name(names[i as int]) != first_name(names[0]));
            }
            return None;
        }
        i += 1;
    }
    Some(first)
}

/// The different members of a list, each where it first stands.
pub open spec fn distinct(list: Seq<Seq<char>>) -> Seq<Seq<char>>
    decreases list.len(),
{
    if list.len() == 0 {
        list
    } else {
        let before = distinct(list.drop_last());
        if before.contains(list.last()) {
            before
        } else {
            before.push(list.last())
        }
    }
}

/// The first component of each name, nothing where it has no usable one.
pub open spec fn first_parts(names: Seq<Seq<char>>) -> Seq<Seq<char>> {
    names.map_values(|n: Seq<char>| first_part(n))
}

/// The different first components of a list, quoted, the first four of them.
pub open spec fn roots_text(names: Seq<Seq<char>>) -> Seq<char> {
    let seen = distinct(first_parts(names));
    let shown = seen.take(if seen.len() < 4 { seen.len() as int } else { 4 }).map_values(
        |r: Seq<char>| debug_form(r),
    );
    if seen.len() > 4 {
        joined(shown, ", "@) + ", …"@
    } else {
        joined(shown, ", "@)
    }
}

/// Whether `list` has a member with these characters.
fn has_text(list: &Vec<String>, text: &str) -> (yes: bool)
    ensures
        yes == views(list@).contains(text@),
{
    let mut i: usize = 0;
    while i < list.len()
        invariant
            i <= list@.len(),
            forall|k: int| 0 <= k < i ==> #[trigger] views(list@)[k] != text@,
        decreases list@.len() - i,
    {
        if same_text(list[i].as_str(), text) {
            proof {
                assert(views(list@)[i as int] == text@);
            }
            return true;
        }
        i += 1;
    }
    false
}

/// The distinct first components of a file list, for a refusal message that tells
/// the user *why* their torrent was skipped.
fn describe_roots(files: &[TaskFile]) -> (text: String)
    ensures
        text@ == roots_text(filenames(files@)),
{
    let ghost parts = first_parts(filenames(files@));
    let mut seen: Vec<String> = Vec::new();
    let mut i: usize = 0;
    proof {
        assert(parts.take(0) =~= Seq::<Seq<char>>::empty());
        assert(views(seen@) =~= Seq::<Seq<char>>::empty());
    }
    while i < files.len()
        invariant
            i <= files@.len(),
            parts == first_parts(filenames(files@)),
            views(seen@) == distinct(parts.take(i as int)),
        decreases files@.len() - i,
    {
        let component = match first_component(files[i].filename.as_str()) {
            Some(first) => first,
            None => String::new(),
        };
        proof {
            assert(component@ =~= parts[i as int]);
            assert(parts.take(i + 1).drop_last() =~= parts.take(i as int));
            assert(parts.take(i + 1).last() == parts[i as int]);
        }
        if !has_text(&seen, component.as_str()) {
            let ghost before = views(seen@);
            let ghost added = component@;
            seen.push(component);
            proof {
                assert(views(seen@) =~= before.push(added));
            }
        }
        i += 1;
    }
    proof {
        assert(parts.take(i as int) =~= parts);
    }
    let ghost all = views(seen@);
    let count: usize = if seen.len() < 4 { seen.len() } else { 4 };
    let ghost shown_spec = all.take(count as int).map_values(|r: Seq<char>| debug_form(r));
    let mut shown: Vec<String> = Vec::new();
    let mut j: usize = 0;
    proof {
        assert(views(shown@) =~= shown_spec.take(0));
    }
    while j < count
        invariant
            j <= count <= seen@.len(),
            all == views(seen@),
            shown_spec == all.take(count as int).map_values(|r: Seq<char>| debug_form(r)),
            views(shown@) == shown_spec.take(j as int),
        decreases count - j,
    {
        let root = quoted(seen[j].as_str());
        let ghost before = views(shown@);
        let ghost added = root@;
        shown.push(root);
        proof {
            assert(views(shown@) =~= before.push(added));
            assert(shown_spec.take(j + 1) =~= shown_spec.take(j as int).push(shown_spec[j as int]));
        }
        j += 1;
    }
    proof {
        assert(shown_spec.take(j as int) =~= shown_spec);
    }
    let mut text = join(shown.as_slice(), ", ");
    if seen.len() > 4 {
        text.append(", …");
    }
    text
}

// ---------------------------------------------------------------------------
// Destinations
// ---------------------------------------------------------------------------

/// Whether a component is `volume` and one or more digits.
pub open spec fn is_volume(s: Seq<char>) -> bool {
    "volume"@.is_prefix_of(s) && all_digits(s.skip("volume"@.len() as int))
}

/// A destination without a leading `/volumeN`.
pub open spec fn without_volume(s: Seq<char>) -> Seq<char> {
    if s.len() > 0 && s[0] == '/' && is_volume(first_part(s.skip(1))) {
        let rest = s.skip(1);
        let first = first_part(rest);
        if first.len() < rest.len() {
            rest.skip(first.len() as int + 1)
        } else {
            Seq::empty()
        }
    } else {
        s
    }
}

/// A text without leading slashes.
pub open spec fn unslash_start(s: Seq<char>) -> Seq<char>
    decreases s.len(),
{
    if s.len() > 0 && s[0] == '/' {
        unslash_start(s.skip(1))
    } else {
        s
    }
}

/// A text without trailing slashes.
pub open spec fn unslash_end(s: Seq<char>) -> Seq<char>
    decreases s.len(),
{
    if s.len() > 0 && s.last() == '/' {
        unslash_end(s.drop_last())
    } else {
        s
    }
}

/// A destination rooted at its share: no leading volume, no slash at either end.
pub open spec fn normalized(s: Seq<char>) -> Seq<char> {
    unslash_end(unslash_start(without_volume(s)))
}

/// True for `volume1`, `volume12`; false for `volume`, `volumeUSB1`, `video`.
fn is_volume_component(chars: &[char], from: usize, to: usize) -> (yes: bool)
    requires
        from <= to <= chars@.len(),
    ensures
        yes == is_volume(chars@.subrange(from as int, to as int)),
{
    let ghost s = chars@.subrange(from as int, to as int);
    proof {
        reveal_strlit("volume");
    }
    let head = text_between(chars, from, to);
    if !starts_with(head.as_str(), "volume") {
        return false;
    }
    proof {
        assert(s.len() >= 6);
    }
    if to - from == 6 {
        return false;
    }
    let mut i: usize = from + 6;
    while i < to
        invariant
            from + 6 <= i <= to <= chars@.len(),
            "volume"@.len() == 6,
            s == chars@.subrange(from as int, to as int),
            forall|k: int| 0 <= k < i - from - 6 ==> is_digit(#[trigger] s.skip(6)[k]),
        decreases to - i,
    {
        if !('0' <= chars[i] && chars[i] <= '9') {
            proof {
                assert(!is_digit(s.skip(6)[i - from - 6]));
            }
            return false;
        }
        i += 1;
    }
    true
}

/// Turn a task's destination into a share-rooted fragment without slashes at its
/// ends: `/volume1/downloads/` and `downloads` both become `downloads`.
///
/// Only the **absolute** `/volumeN` form is stripped; anything else is passed
/// through untouched.
pub fn normalize_destination(destination: &str) -> (out: String)
    ensures
        out@ == normalized(destination@),
{
    let chars = chars_of(destination);
    let total: usize = chars.len();
    let mut from: usize = 0;
    proof {
        assert(chars@.skip(0) =~= chars@);
    }
    if total > 0 && chars[0] == '/' {
        let at = slash_from(chars.as_slice(), 1);
        if is_volume_component(chars.as_slice(), 1, at) {
            from = if at < total { at + 1 } else { total };
            proof {
                let rest = chars@.skip(1);
                assert(first_part(rest).len() == at - 1);
                if at < total {
                    assert(rest.skip(at as int) =~= chars@.skip(from as int));
                } else {
                    assert(chars@.skip(from as int) =~= Seq::<char>::empty());
                }
            }
        }
    }
    let ghost body = chars@.skip(from as int);
    proof {
        assert(body =~= without_volume(destination@));
    }
    while from < total && chars[from] == '/'
        invariant
            from <= total == chars@.len(),
            unslash_start(body) == unslash_start(chars@.skip(from as int)),
        decreases total - from,
    {
        proof {
            assert(chars@.skip(from as int)[0] == '/');
            assert(chars@.skip(from as int).skip(1) =~= chars@.skip(from + 1));
        }
        from += 1;
    }
    let mut to: usize = total;
    let ghost start = chars@.skip(from as int);
    proof {
        assert(start =~= chars@.subrange(from as int, to as int));
        if from < total {
            assert(start[0] == chars@[from as int]);
        }
    }
    while from < to && chars[to - 1] == '/'
        invariant
            from <= to <= total == chars@.len(),
            unslash_end(start) == unslash_end(chars@.subrange(from as int, to as int)),
        decreases to,
    {
        proof {
            assert(chars@.subrange(from as int, to as int).drop_last() =~= chars@.subrange(
                from as int,
                to - 1,
            ));
        }
        to -= 1;
    }
    text_between(chars.as_slice(), from, to)
}

// ---------------------------------------------------------------------------
// Guards
// ---------------------------------------------------------------------------

/// Unicode's control characters.
pub open spec fn is_control(c: char) -> bool {
    c as u32 <= 0x1f || 0x7f <= c as u32 <= 0x9f
}

/// Whether a text holds a control character.
pub open spec fn has_control(s: Seq<char>) -> bool {
    exists|i: int| 0 <= i < s.len() && is_control(#[trigger] s[i])
}

/// Whether a text is nothing but white space.
pub open spec fn is_blank(s: Seq<char>) -> bool {
    forall|i: int| 0 <= i < s.len() ==> is_space(#[trigger] s[i])
}

/// Whether a text holds a control character.
fn controlled(text: &str) -> (yes: bool)
    ensures
        yes == has_control(text@),
{
    let chars = chars_of(text);
    let mut i: usize = 0;
    while i < chars.len()
        invariant
            i <= chars@.len(),
            chars@ == text@,
            forall|k: int| 0 <= k < i ==> !is_control(#[trigger] text@[k]),
        decreases chars@.len() - i,
    {
        let n: u32 = chars[i] as u32;
        if n <= 0x1f || (0x7f <= n && n <= 0x9f) {
            proof {
                assert(is_control(text@[i as int]));
            }
            return true;
        }
        i += 1;
    }
    false
}

/// Whether a text is nothing but white space.
fn blank(text: &str) -> (yes: bool)
    ensures
        yes == is_blank(text@),
{
    let chars = chars_of(text);
    let mut i: usize = 0;
    while i < chars.len()
        invariant
            i <= chars@.len(),
            chars@ == text@,
            forall|k: int| 0 <= k < i ==> is_space(#[trigger] text@[k]),
        decreases chars@.len() - i,
    {
        if !space(chars[i]) {
            proof {
                assert(!is_space(text@[i as int]));
            }
            return false;
        }
        i += 1;
    }
    true
}

/// Why a name is refused as the single component a task's data lives under.
pub open spec fn name_refusal(name: Seq<char>) -> Option<Seq<char>> {
    if is_blank(name) {
        Some("the task has no usable on-disk name"@)
    } else if name.contains('/') {
        Some("the on-disk name contains a path separator"@)
    } else if name == "."@ || name == ".."@ {
        Some("the on-disk name is a relative-path component"@)
    } else if has_control(name) {
        Some("the on-disk name contains a control character"@)
    } else {
        None
    }
}

/// Whether a text holds a slash.
fn has_slash(text: &str) -> (yes: bool)
    ensures
        yes == text@.contains('/'),
{
    let chars = chars_of(text);
    let at = slash_from(chars.as_slice(), 0);
    proof {
        assert(chars@.skip(0) =~= chars@);
        lemma_first_part_no_slash(chars@);
        if at == chars@.len() {
            assert(chars@.subrange(0, at as int) =~= chars@);
        } else {
            assert(chars@[at as int] == '/');
        }
    }
    at < chars.len()
}

proof fn lemma_first_part_no_slash(s: Seq<char>)
    ensures
        !first_part(s).contains('/'),
        first_part(s).len() <= s.len(),
        first_part(s) == s.take(first_part(s).len() as int),
    decreases s.len(),
{
    if s.len() > 0 && s[0] != '/' {
        lemma_first_part_no_slash(s.skip(1));
        let rest = first_part(s.skip(1));
        assert forall|i: int| 0 <= i < first_part(s).len() implies first_part(s)[i] != '/' by {
            if i > 0 {
                assert(first_part(s)[i] == rest[i - 1]);
                assert(rest.contains(rest[i - 1]));
            }
        }
        assert(first_part(s) =~= s.take(first_part(s).len() as int));
    } else {
        assert(first_part(s) =~= s.take(0));
    }
}

/// Guard the single path component a task's data lives under, before it is joined
/// to anything.
pub fn validate_name(name: &str) -> (result: Result<(), Error>)
    ensures
        match result {
            Ok(()) => name_refusal(name@) is None,
            Err(err) => err matches Error::UnsafePath { path, reason } && path@ == name@
                && name_refusal(name@) == Some(reason@),
        },
{
    if blank(name) {
        return Err(Error::unsafe_path(name, "the task has no usable on-disk name"));
    }
    if has_slash(name) {
        return Err(Error::unsafe_path(name, "the on-disk name contains a path separator"));
    }
    if same_text(name, ".") || same_text(name, "..") {
        return Err(Error::unsafe_path(name, "the on-disk name is a relative-path component"));
    }
    if controlled(name) {
        return Err(Error::unsafe_path(name, "the on-disk name contains a control character"));
    }
    Ok(())
}

/// The components of an absolute path.
pub open spec fn components(path: Seq<char>) -> Seq<Seq<char>> {
    split(path.skip(1), '/')
}

/// Whether some member of a list is blank.
pub open spec fn some_blank(list: Seq<Seq<char>>) -> bool {
    exists|i: int| 0 <= i < list.len() && is_blank(#[trigger] list[i])
}

/// Why a path is refused.
pub open spec fn path_refusal(path: Seq<char>) -> Option<Seq<char>> {
    if path.len() == 0 {
        Some("the path is empty"@)
    } else if path[0] != '/' {
        Some("the path is not absolute"@)
    } else if has_control(path) {
        Some("the path contains a control character"@)
    } else if path.len() == 1 {
        Some("the path is the filesystem root"@)
    } else if some_blank(components(path)) {
        Some("the path has an empty or blank component"@)
    } else if components(path).contains(".."@) {
        Some("the path contains a `..` component"@)
    } else if components(path).contains("."@) {
        Some("the path contains a `.` component"@)
    } else if components(path).len() < 2 {
        Some("the path is a share root, not a directory inside one"@)
    } else {
        None
    }
}

/// Whether some member of `list` is blank.
fn any_blank(list: &Vec<String>) -> (yes: bool)
    ensures
        yes == some_blank(views(list@)),
{
    let mut i: usize = 0;
    while i < list.len()
        invariant
            i <= list@.len(),
            forall|k: int| 0 <= k < i ==> !is_blank(#[trigger] views(list@)[k]),
        decreases list@.len() - i,
    {
        if blank(list[i].as_str()) {
            proof {
                assert(is_blank(views(list@)[i as int]));
            }
            return true;
        }
        i += 1;
    }
    false
}

/// The syntactic guard. A path that does not pass this is never sent to File
/// Station, and the task it came from is left alone.
///
/// Rejected: an empty or relative path; a control character; `/` itself; any empty
/// or blank component; any `.` or `..` component; fewer than two components, since
/// **one component is a share root**.
pub fn validate_path(path: &str) -> (result: Result<(), Error>)
    ensures
        match result {
            Ok(()) => path_refusal(path@) is None,
            Err(err) => err matches Error::UnsafePath { path: p, reason } && p@ == path@
                && path_refusal(path@) == Some(reason@),
        },
{
    let chars = chars_of(path);
    if chars.len() == 0 {
        return Err(Error::unsafe_path(path, "the path is empty"));
    }
    if chars[0] != '/' {
        return Err(Error::unsafe_path(path, "the path is not absolute"));
    }
    if controlled(path) {
        return Err(Error::unsafe_path(path, "the path contains a control character"));
    }
    if chars.len() == 1 {
        return Err(Error::unsafe_path(path, "the path is the filesystem root"));
    }
    let rest = text_between(chars.as_slice(), 1, chars.len());
    proof {
        assert(rest@ =~= path@.skip(1));
    }
    let parts = split_on(rest.as_str(), '/');
    if any_blank(&parts) {
        return Err(Error::unsafe_path(path, "the path has an empty or blank component"));
    }
    if has_text(&parts, "..") {
        return Err(Error::unsafe_path(path, "the path contains a `..` component"));
    }
    if has_text(&parts, ".") {
        return Err(Error::unsafe_path(path, "the path contains a `.` component"));
    }
    if parts.len() < 2 {
        return Err(
            Error::unsafe_path(path, "the path is a share root, not a directory inside one"),
        );
    }
    Ok(())
}

// ---------------------------------------------------------------------------
// Resolution
// ---------------------------------------------------------------------------

/// The refusal of a file list without a single root.
pub open spec fn no_root_text(names: Seq<Seq<char>>) -> Seq<char> {
    "the task's "@ + decimal(names.len())
        + " files share no single top-level directory (found "@ + roots_text(names)
        + "), so the on-disk name cannot be determined; refusing to guess it from the title"@
}

/// The refusal of a task without a destination.
pub open spec fn no_destination_text() -> Seq<char> {
    "the task reports no destination, so its on-disk location is unknown"@
}

/// The on-disk name of a task's payload: the shared root of its files, its title
/// where it lists none. Else what was refused and why.
pub open spec fn name_resolved(title: Seq<char>, names: Seq<Seq<char>>) -> Result<
    Seq<char>,
    (Seq<char>, Seq<char>),
> {
    if names.len() > 0 && shared_root(names) is None {
        Err((title, no_root_text(names)))
    } else {
        let name = if names.len() == 0 {
            title
        } else {
            shared_root(names)->0
        };
        match name_refusal(name) {
            Some(reason) => Err((name, reason)),
            None => Ok(name),
        }
    }
}

/// A destination and a name as an absolute path.
pub open spec fn path_of(destination: Seq<char>, name: Seq<char>) -> Seq<char> {
    "/"@ + destination + "/"@ + name
}

/// The path that holds a task's data, or what was refused and why.
pub open spec fn path_resolved(
    title: Seq<char>,
    names: Seq<Seq<char>>,
    destination: Seq<char>,
) -> Result<Seq<char>, (Seq<char>, Seq<char>)> {
    match name_resolved(title, names) {
        Err(refusal) => Err(refusal),
        Ok(name) => if normalized(destination).len() == 0 {
            Err((title, no_destination_text()))
        } else {
            let path = path_of(normalized(destination), name);
            match path_refusal(path) {
                Some(reason) => Err((path, reason)),
                None => Ok(path),
            }
        },
    }
}

/// The path that holds a task's data, or what was refused and why.
pub open spec fn resolved(task: Task) -> Result<Seq<char>, (Seq<char>, Seq<char>)> {
    path_resolved(task.title@, filenames(task.files@), task.destination@)
}

/// Whether `err` is the refusal of this text for this reason.
pub open spec fn is_refusal(err: Error, refusal: (Seq<char>, Seq<char>)) -> bool {
    err matches Error::UnsafePath { path, reason } && path@ == refusal.0 && reason@ == refusal.1
}

/// The on-disk name of a task's payload.
fn resolve_name(task: &Task) -> (result: Result<String, Error>)
    ensures
        match result {
            Ok(name) => name_resolved(task.title@, filenames(task.files@)) == Ok::<
                Seq<char>,
                (Seq<char>, Seq<char>),
            >(name@),
            Err(err) => name_resolved(task.title@, filenames(task.files@)) matches Err(refusal)
                && is_refusal(err, refusal),
        },
{
    let name = if task.files.len() == 0 {
        task.title.clone()
    } else {
        match common_root(task.files.as_slice()) {
            Some(root) => root,
            None => {
                let mut reason = "the task's ".to_owned();
                let count = decimal_of(task.files.len() as u64);
                let roots = describe_roots(task.files.as_slice());
                reason.append(count.as_str());
                reason.append(" files share no single top-level directory (found ");
                reason.append(roots.as_str());
                reason.append(
                    "), so the on-disk name cannot be determined; refusing to guess it from the title",
                );
                return Err(Error::unsafe_path(task.title.as_str(), reason.as_str()));
            },
        }
    };
    match validate_name(name.as_str()) {
        Ok(()) => Ok(name),
        Err(err) => Err(err),
    }
}

/// The absolute File Station path holding a task's data.
///
/// This is the only function permitted to answer "what does deleting a task
/// remove from the volume", and it answers with an error far more readily than with
/// a path. The path it returns has passed [`validate_path`].
pub fn resolve_delete_path(task: &Task) -> (result: Result<String, Error>)
    ensures
        match result {
            Ok(path) => resolved(*task) == Ok::<Seq<char>, (Seq<char>, Seq<char>)>(path@),
            Err(err) => resolved(*task) matches Err(refusal) && is_refusal(err, refusal),
        },
{
    let name = match resolve_name(task) {
        Ok(name) => name,
        Err(err) => {
            return Err(err);
        },
    };
    let destination = normalize_destination(task.destination.as_str());
    if destination.as_str().is_empty() {
        return Err(
            Error::unsafe_path(
                task.title.as_str(),
                "the task reports no destination, so its on-disk location is unknown",
            ),
        );
    }
    let mut path = "/".to_owned();
    path.append(destination.as_str());
    path.append("/");
    path.append(name.as_str());
    match validate_path(path.as_str()) {
        Ok(()) => Ok(path),
        Err(err) => Err(err),
    }
}

// ---------------------------------------------------------------------------
// Payloads
// ---------------------------------------------------------------------------

/// What a resolved path is expected to be.
#[derive(Debug, Clone, Copy, PartialEq, Eq, Structural)]
pub enum ExpectedKind {
    /// The root of a file list with more than the one file: a directory.
    Dir,
    /// A single listed file: that file.
    File,
    /// Named after the title, with no file list to say which it is.
    AnyFromTitle,
    /// Nothing that was listed describes a single object.
    Indeterminate,
}

impl ExpectedKind {
    /// Whether an object of this kind may be deleted as the expected one.
    pub open spec fn takes(self, is_dir: bool) -> bool {
        match self {
            ExpectedKind::Dir => is_dir,
            ExpectedKind::File => !is_dir,
            ExpectedKind::AnyFromTitle => true,
            ExpectedKind::Indeterminate => false,
        }
    }

    /// Whether an object of this kind may be deleted as the expected one.
    pub fn accepts(&self, is_dir: bool) -> (yes: bool)
        ensures
            yes == self.takes(is_dir),
    {
        match self {
            ExpectedKind::Dir => is_dir,
            ExpectedKind::File => !is_dir,
            ExpectedKind::AnyFromTitle => true,
            ExpectedKind::Indeterminate => false,
        }
    }

    /// The kind in words.
    pub open spec fn text(self) -> Seq<char> {
        match self {
            ExpectedKind::Dir => "a directory"@,
            ExpectedKind::File => "a file"@,
            ExpectedKind::AnyFromTitle => "a file or a directory"@,
            ExpectedKind::Indeterminate => "neither a file nor a directory"@,
        }
    }

    /// The kind in words.
    pub fn label(&self) -> (text: &'static str)
        ensures
            text@ == self.text(),
    {
        match self {
            ExpectedKind::Dir => "a directory",
            ExpectedKind::File => "a file",
            ExpectedKind::AnyFromTitle => "a file or a directory",
            ExpectedKind::Indeterminate => "neither a file nor a directory",
        }
    }
}

/// What the path a task resolves to is expected to be.
pub open spec fn kind_expected(names: Seq<Seq<char>>) -> ExpectedKind {
    if names.len() == 0 {
        ExpectedKind::AnyFromTitle
    } else if names.len() > 1 || names[0].contains('/') {
        ExpectedKind::Dir
    } else {
        ExpectedKind::File
    }
}

/// What the path a task resolves to is expected to be.
fn expected_kind_of(files: &[TaskFile]) -> (kind: ExpectedKind)
    ensures
        kind == kind_expected(filenames(files@)),
{
    if files.len() == 0 {
        ExpectedKind::AnyFromTitle
    } else if files.len() > 1 || has_slash(files[0].filename.as_str()) {
        ExpectedKind::Dir
    } else {
        ExpectedKind::File
    }
}

/// What is known of a task's payload: the status and the counters that say whether
/// it was ever written.
#[derive(Debug, Clone, PartialEq, Eq)]
pub struct PayloadState {
    pub status: TaskStatus,
    pub downloaded: u64,
    pub size: u64,
}

/// Whether counters say that everything was downloaded; a task without a size says
/// nothing.
pub open spec fn counters_full(downloaded: u64, size: u64) -> bool {
    size > 0 && downloaded >= size
}

impl PayloadState {
    /// What a task says of its payload.
    pub fn of_task(task: &Task) -> (state: PayloadState)
        ensures
            state == (PayloadState {
                status: task.status,
                downloaded: task.downloaded,
                size: task.size,
            }),
    {
        PayloadState { status: task.status.copy(), downloaded: task.downloaded, size: task.size }
    }

    /// Whether the counters say that everything was downloaded.
    pub fn fully_downloaded(&self) -> (yes: bool)
        ensures
            yes == counters_full(self.downloaded, self.size),
    {
        self.size > 0 && self.downloaded >= self.size
    }
}

/// Whether a task of this status has a complete payload on the volume.
pub open spec fn implies_payload(status: TaskStatus) -> bool {
    status is Finished || status is Seeding || status is Extracting
}

/// Whether a task of this status has a complete payload on the volume.
pub fn status_implies_payload(status: &TaskStatus) -> (yes: bool)
    ensures
        yes == implies_payload(*status),
{
    match status {
        TaskStatus::Finished => true,
        TaskStatus::Seeding => true,
        TaskStatus::Extracting => true,
        _ => false,
    }
}

/// Whether a payload demonstrably existed: by the task's status, or by its counters.
pub open spec fn payload_expected(payload: PayloadState) -> bool {
    implies_payload(payload.status) || counters_full(payload.downloaded, payload.size)
}

/// Whether a payload demonstrably existed: by the task's status, or by its counters.
pub fn payload_should_exist(payload: &PayloadState) -> (yes: bool)
    ensures
        yes == payload_expected(*payload),
{
    status_implies_payload(&payload.status) || payload.fully_downloaded()
}

/// Whether a task of this status is, or may be, writing.
pub open spec fn pause_required(status: TaskStatus) -> bool {
    !(status is Paused || status is Finished || status is Error)
}

/// Whether a task of this status has to be paused before its files are deleted. A
/// status this client does not know counts as active.
pub fn requires_pause(status: &TaskStatus) -> (yes: bool)
    ensures
        yes == pause_required(*status),
{
    match status {
        TaskStatus::Paused => false,
        TaskStatus::Finished => false,
        TaskStatus::Error => false,
        _ => true,
    }
}

// ---------------------------------------------------------------------------
// Plans
// ---------------------------------------------------------------------------

/// What the executor should do with one snapshotted task.
#[derive(Debug, Clone, PartialEq, Eq)]
pub enum Target {
    /// A resolved, guard-checked absolute File Station path.
    Path(String),
    /// Resolution refused, for the reason shown to the user.
    Refused(String),
}

/// One task, frozen at the moment the confirmation dialog opened.
#[derive(Debug, Clone, PartialEq, Eq)]
pub struct DeleteItem {
    pub id: String,
    pub title: String,
    /// Task size as DSM reported it: what the user is told they will reclaim.
    pub size: u64,
    /// How much of it was downloaded.
    pub downloaded: u64,
    /// Status **at snapshot time**.
    pub status: TaskStatus,
    pub target: Target,
    /// Whether anything resolved a path at all.
    pub named: bool,
    /// What the path is expected to be.
    pub expected_kind: ExpectedKind,
}

/// Whether `item` is what a task was frozen to.
pub open spec fn snapshot_of(task: Task, item: DeleteItem) -> bool {
    &&& item.id@ == task.id@
    &&& item.title@ == task.title@
    &&& item.size == task.size
    &&& item.downloaded == task.downloaded
    &&& item.status == task.status
    &&& match resolved(task) {
        Ok(path) => {
            &&& item.target matches Target::Path(p)
            &&& p@ == path
            &&& item.named
            &&& item.expected_kind == kind_expected(filenames(task.files@))
        },
        Err(refusal) => {
            &&& item.target matches Target::Refused(reason)
            &&& reason@ == refusal.1
            &&& !item.named
            &&& item.expected_kind == ExpectedKind::Indeterminate
        },
    }
}

impl DeleteItem {
    /// Resolve one task into a snapshot item. A refusal is recorded on the item
    /// rather than returned, so one bad torrent never aborts the batch.
    pub fn for_task(task: &Task) -> (item: Self)
        ensures
            snapshot_of(*task, item),
    {
        let (target, named, expected_kind) = match resolve_delete_path(task) {
            Ok(path) => (Target::Path(path), true, expected_kind_of(task.files.as_slice())),
            Err(Error::UnsafePath { reason, .. }) => (
                Target::Refused(reason),
                false,
                ExpectedKind::Indeterminate,
            ),
            Err(other) => (Target::Refused(other.message()), false, ExpectedKind::Indeterminate),
        };
        DeleteItem {
            id: task.id.clone(),
            title: task.title.clone(),
            size: task.size,
            downloaded: task.downloaded,
            status: task.status.copy(),
            target,
            named,
            expected_kind,
        }
    }

    /// The path to delete, or `None` when this item was refused.
    pub fn path(&self) -> (path: Option<&str>)
        ensures
            match self.target {
                Target::Path(p) => path matches Some(s) && s@ == p@,
                Target::Refused(_) => path is None,
            },
    {
        match &self.target {
            Target::Path(path) => Some(path.as_str()),
            Target::Refused(_) => None,
        }
    }

    /// Why this item will be skipped, or `None` when it will be deleted.
    pub fn refusal(&self) -> (reason: Option<&str>)
        ensures
            match self.target {
                Target::Path(_) => reason is None,
                Target::Refused(r) => reason matches Some(s) && s@ == r@,
            },
    {
        match &self.target {
            Target::Refused(reason) => Some(reason.as_str()),
            Target::Path(_) => None,
        }
    }

    /// True when this item will be skipped.
    pub fn is_refused(&self) -> (yes: bool)
        ensures
            yes == (self.target is Refused),
    {
        match &self.target {
            Target::Refused(_) => true,
            Target::Path(_) => false,
        }
    }

    /// What was known of the payload at snapshot time.
    pub fn payload_state(&self) -> (state: PayloadState)
        ensures
            state == (PayloadState {
                status: self.status,
                downloaded: self.downloaded,
                size: self.size,
            }),
    {
        PayloadState { status: self.status.copy(), downloaded: self.downloaded, size: self.size }
    }
}

/// An owned snapshot of everything a single `d` press will act on.
#[derive(Debug, Clone, Default, PartialEq, Eq)]
pub struct DeletePlan {
    pub items: Vec<DeleteItem>,
}

/// The items of a list that are, or are not, refused, in order.
pub open spec fn items_refused(items: Seq<DeleteItem>, refused: bool) -> Seq<DeleteItem> {
    items.filter(|item: DeleteItem| (item.target is Refused) == refused)
}

/// The bytes of the items of a list that are not refused.
pub open spec fn bytes_freed(items: Seq<DeleteItem>) -> nat
    decreases items.len(),
{
    if items.len() == 0 {
        0
    } else {
        let last: nat = if items.last().target is Refused {
            0
        } else {
            items.last().size as nat
        };
        bytes_freed(items.drop_last()) + last
    }
}

/// The bytes freed grow with the list.
pub proof fn lemma_bytes_freed_monotone(items: Seq<DeleteItem>, i: int)
    requires
        0 <= i <= items.len(),
    ensures
        bytes_freed(items.take(i)) <= bytes_freed(items),
    decreases items.len(),
{
    if i < items.len() {
        lemma_bytes_freed_monotone(items.drop_last(), i);
        assert(items.drop_last().take(i) =~= items.take(i));
    } else {
        assert(items.take(i) =~= items);
    }
}

impl DeletePlan {
    /// Freeze a set of tasks into a plan, resolving each one's path now.
    pub fn snapshot(tasks: &[&Task]) -> (plan: Self)
        ensures
            plan.items@.len() == tasks@.len(),
            forall|i: int|
                0 <= i < tasks@.len() ==> snapshot_of(*tasks@[i], #[trigger] plan.items@[i]),
    {
        let mut items: Vec<DeleteItem> = Vec::new();
        let mut i: usize = 0;
        while i < tasks.len()
            invariant
                i <= tasks@.len(),
                items@.len() == i,
                forall|k: int| 0 <= k < i ==> snapshot_of(*tasks@[k], #[trigger] items@[k]),
            decreases tasks@.len() - i,
        {
            items.push(DeleteItem::for_task(tasks[i]));
            i += 1;
        }
        DeletePlan { items }
    }

    /// Every item, refused ones included.
    pub fn len(&self) -> (count: usize)
        ensures
            count == self.items@.len(),
    {
        self.items.len()
    }

    /// True when there is nothing to confirm.
    pub fn is_empty(&self) -> (yes: bool)
        ensures
            yes == (self.items@.len() == 0),
    {
        self.items.len() == 0
    }

    /// The items that are, or are not, refused, in snapshot order.
    fn items_where(&self, refused: bool) -> (list: Vec<&DeleteItem>)
        ensures
            list@.len() == items_refused(self.items@, refused).len(),
            forall|i: int|
                0 <= i < list@.len() ==> *#[trigger] list@[i] == items_refused(
                    self.items@,
                    refused,
                )[i],
    {
        let mut list: Vec<&DeleteItem> = Vec::new();
        let mut i: usize = 0;
        let ghost keep = |item: DeleteItem| (item.target is Refused) == refused;
        proof {
            assert(self.items@.take(0) =~= Seq::<DeleteItem>::empty());
            reveal(Seq::filter);
        }
        while i < self.items.len()
            invariant
                i <= self.items@.len(),
                keep == (|item: DeleteItem| (item.target is Refused) == refused),
                list@.len() == self.items@.take(i as int).filter(keep).len(),
                forall|k: int|
                    0 <= k < list@.len() ==> *#[trigger] list@[k] == self.items@.take(
                        i as int,
                    ).filter(keep)[k],
            decreases self.items@.len() - i,
        {
            proof {
                reveal(Seq::filter);
                assert(self.items@.take(i + 1).drop_last() =~= self.items@.take(i as int));
                assert(self.items@.take(i + 1).last() == self.items@[i as int]);
            }
            if self.items[i].is_refused() == refused {
                list.push(&self.items[i]);
            }
            i += 1;
        }
        proof {
            assert(self.items@.take(i as int) =~= self.items@);
        }
        list
    }

    /// The items that resolved to a path, in snapshot order.
    pub fn deletable(&self) -> (list: Vec<&DeleteItem>)
        ensures
            list@.len() == items_refused(self.items@, false).len(),
            forall|i: int|
                0 <= i < list@.len() ==> *#[trigger] list@[i] == items_refused(
                    self.items@,
                    false,
                )[i],
    {
        self.items_where(false)
    }

    /// The items that were refused, in snapshot order.
    pub fn refused(&self) -> (list: Vec<&DeleteItem>)
        ensures
            list@.len() == items_refused(self.items@, true).len(),
            forall|i: int|
                0 <= i < list@.len() ==> *#[trigger] list@[i] == items_refused(self.items@, true)[i],
    {
        self.items_where(true)
    }

    /// Bytes this plan will actually free: refused items are **excluded**, since
    /// nothing of theirs is removed.
    pub fn total_size(&self) -> (total: u64)
        requires
            bytes_freed(self.items@) <= u64::MAX,
        ensures
            total == bytes_freed(self.items@),
    {
        let mut total: u64 = 0;
        let mut i: usize = 0;
        proof {
            assert(self.items@.take(0) =~= Seq::<DeleteItem>::empty());
        }
        while i < self.items.len()
            invariant
                i <= self.items@.len(),
                bytes_freed(self.items@) <= u64::MAX,
                total == bytes_freed(self.items@.take(i as int)),
            decreases self.items@.len() - i,
        {
            proof {
                assert(self.items@.take(i + 1).drop_last() =~= self.items@.take(i as int));
                assert(self.items@.take(i + 1).last() == self.items@[i as int]);
                lemma_bytes_freed_monotone(self.items@, i + 1);
            }
            if !self.items[i].is_refused() {
                total = total + self.items[i].size;
            }
            i += 1;
        }
        proof {
            assert(self.items@.take(i as int) =~= self.items@);
        }
        total
    }
}

// ---------------------------------------------------------------------------
// The order of a delete
// ---------------------------------------------------------------------------

/// What a delete is to do, and whether it is to do it at all.
#[derive(Debug, Clone, Copy, PartialEq, Eq, Structural)]
pub struct DeleteOptions {
    /// Delete the files as well as the task.
    pub delete_files: bool,
    /// Report what would be done and do none of it.
    pub dry_run: bool,
}

impl Default for DeleteOptions {
    /// Files and task, for real.
    fn default() -> (options: Self)
        ensures
            options == (DeleteOptions { delete_files: true, dry_run: false }),
    {
        DeleteOptions { delete_files: true, dry_run: false }
    }
}

impl DeleteOptions {
    /// The default, as a dry run.
    pub fn dry_run() -> (options: Self)
        ensures
            options == (DeleteOptions { delete_files: true, dry_run: true }),
    {
        DeleteOptions { delete_files: true, dry_run: true }
    }
}

/// One phase of a delete.
#[derive(Debug, Clone, PartialEq, Eq)]
pub enum Op {
    /// Stop the task writing, and see that it stopped.
    Pause,
    /// Recursively delete this path.
    DeleteFiles(String),
    /// Remove the Download Station task.
    DeleteTask,
}

/// The phases of deleting one item: nothing for a refused item whose files were to
/// go; the task alone where its files are to stay; else pause, files, task.
pub open spec fn ops_planned(target: Target, delete_files: bool) -> Seq<Op> {
    if !delete_files {
        seq![Op::DeleteTask]
    } else {
        match target {
            Target::Refused(_) => Seq::empty(),
            Target::Path(path) => seq![Op::Pause, Op::DeleteFiles(path), Op::DeleteTask],
        }
    }
}

/// The phases of deleting one item, in order.
///
/// The pause stands in the plan whatever the snapshot's status was: whether one is
/// needed is decided from a live reading of the task.
pub fn plan_delete_ops(item: &DeleteItem, options: DeleteOptions) -> (ops: Vec<Op>)
    ensures
        ops@ == ops_planned(item.target, options.delete_files),
{
    let mut ops: Vec<Op> = Vec::new();
    if !options.delete_files {
        ops.push(Op::DeleteTask);
    } else {
        match &item.target {
            Target::Refused(_) => {},
            Target::Path(path) => {
                ops.push(Op::Pause);
                ops.push(Op::DeleteFiles(path.clone()));
                ops.push(Op::DeleteTask);
            },
        }
    }
    ops
}

/// Whether deleting this item does anything.
pub fn will_act(item: &DeleteItem, options: DeleteOptions) -> (yes: bool)
    ensures
        yes == (ops_planned(item.target, options.delete_files).len() > 0),
{
    !options.delete_files || !item.is_refused()
}

/// The phases that a failure of the one at `index` cancels: every later one.
pub fn ops_cancelled_by(ops: &[Op], index: usize) -> (later: &[Op])
    requires
        index < ops@.len(),
    ensures
        later@ == ops@.skip(index + 1),
{
    let total: usize = ops.len();
    let later = vstd::slice::slice_subrange(ops, index + 1, total);
    proof {
        assert(later@ =~= ops@.skip(index + 1));
    }
    later
}

/// One phase in words.
pub open spec fn op_text(op: Op) -> Seq<char> {
    match op {
        Op::Pause => "pause the task"@,
        Op::DeleteFiles(path) => "recursively delete "@ + path@,
        Op::DeleteTask => "delete the DSM task"@,
    }
}

/// The phases in words, in order.
pub open spec fn ops_text(ops: Seq<Op>) -> Seq<char> {
    joined(ops.map_values(|op: Op| op_text(op)), ", then "@)
}

/// The phases in words, in order.
pub fn describe_ops(ops: &[Op]) -> (text: String)
    ensures
        text@ == ops_text(ops@),
{
    let mut parts: Vec<String> = Vec::new();
    let ghost whole = ops@.map_values(|op: Op| op_text(op));
    let mut i: usize = 0;
    proof {
        assert(views(parts@) =~= whole.take(0));
    }
    while i < ops.len()
        invariant
            i <= ops@.len(),
            whole == ops@.map_values(|op: Op| op_text(op)),
            views(parts@) == whole.take(i as int),
        decreases ops@.len() - i,
    {
        let part = match &ops[i] {
            Op::Pause => "pause the task".to_owned(),
            Op::DeleteFiles(path) => {
                let mut text = "recursively delete ".to_owned();
                text.append(path.as_str());
                text
            },
            Op::DeleteTask => "delete the DSM task".to_owned(),
        };
        let ghost before = views(parts@);
        let ghost added = part@;
        parts.push(part);
        proof {
            assert(views(parts@) =~= before.push(added));
            assert(whole.take(i + 1) =~= whole.take(i as int).push(whole[i as int]));
        }
        i += 1;
    }
    proof {
        assert(whole.take(i as int) =~= whole);
    }
    join(parts.as_slice(), ", then ")
}

// ---------------------------------------------------------------------------
// Laws
// ---------------------------------------------------------------------------

/// What the guard lets through, in one sentence: an absolute path of two or more
/// components, none of them blank, `.` or `..`, without a control character.
pub open spec fn safe_path(path: Seq<char>) -> bool {
    &&& path.len() > 1
    &&& path[0] == '/'
    &&& !has_control(path)
    &&& components(path).len() >= 2
    &&& forall|i: int|
        0 <= i < components(path).len() ==> !is_blank(#[trigger] components(path)[i])
            && components(path)[i] != "."@ && components(path)[i] != ".."@
}

/// The guard accepts exactly the safe paths.
pub proof fn law_guard_accepts_exactly_safe_paths(path: Seq<char>)
    ensures
        path_refusal(path) is None <==> safe_path(path),
{
    let parts = components(path);
    if path_refusal(path) is None {
        assert forall|i: int| 0 <= i < parts.len() implies !is_blank(#[trigger] parts[i])
            && parts[i] != "."@ && parts[i] != ".."@ by {
            assert(parts.contains(parts[i]));
        }
    }
    if safe_path(path) {
        assert(!parts.contains(".."@));
        assert(!parts.contains("."@));
    }
}

/// Resolution and the guard cannot disagree: every path a task resolves to is safe.
pub proof fn law_resolved_paths_are_safe(task: Task)
    ensures
        resolved(task) matches Ok(path) ==> path_refusal(path) is None && safe_path(path),
{
    if let Ok(path) = resolved(task) {
        law_guard_accepts_exactly_safe_paths(path);
    }
}

/// Whether `part` is what stands before the first slash of `name`, or all of it where it
/// has none.
pub open spec fn stands_first(part: Seq<char>, name: Seq<char>) -> bool {
    &&& part.len() <= name.len()
    &&& forall|k: int| 0 <= k < part.len() ==> #[trigger] part[k] == name[k] && part[k] != '/'
    &&& part.len() == name.len() || name[part.len() as int] == '/'
}

/// Whether every file of a list begins with this one name.
pub open spec fn all_begin_with(files: Seq<TaskFile>, root: Seq<char>) -> bool {
    forall|i: int| 0 <= i < files.len() ==> stands_first(root, (#[trigger] files[i]).filename@)
}

/// What stands before the first slash does.
pub proof fn lemma_first_part_stands_first(s: Seq<char>)
    ensures
        stands_first(first_part(s), s),
    decreases s.len(),
{
    if s.len() > 0 && s[0] != '/' {
        let rest = s.skip(1);
        lemma_first_part_stands_first(rest);
        let part = first_part(s);
        assert forall|k: int| 0 <= k < part.len() implies #[trigger] part[k] == s[k] && part[k]
            != '/' by {
            if k > 0 {
                assert(part[k] == first_part(rest)[k - 1]);
            }
        }
    }
}

/// Only one text stands before the first slash of a name.
pub proof fn lemma_stands_first_once(a: Seq<char>, b: Seq<char>, name: Seq<char>)
    requires
        stands_first(a, name),
        stands_first(b, name),
    ensures
        a == b,
{
    if a.len() < b.len() {
        assert(b[a.len() as int] != '/');
    } else if b.len() < a.len() {
        assert(a[b.len() as int] != '/');
    }
    assert(a =~= b);
}

/// A file list has a root exactly where every file of it, at every place, begins with
/// that one name: it is what stands before the first slash of each.
pub proof fn law_the_root_is_every_files_first_component(files: Seq<TaskFile>, root: Seq<char>)
    ensures
        shared_root(filenames(files)) == Some(root) <==> files.len() > 0 && root.len() > 0
            && all_begin_with(files, root),
{
    let names = filenames(files);
    assert forall|i: int| 0 <= i < files.len() implies {
        &&& names[i] == (#[trigger] files[i]).filename@
        &&& stands_first(first_part(names[i]), names[i])
        &&& stands_first(root, names[i]) ==> first_part(names[i]) == root
    } by {
        lemma_first_part_stands_first(names[i]);
        if stands_first(root, names[i]) {
            lemma_stands_first_once(root, first_part(names[i]), names[i]);
        }
    }
    if files.len() > 0 && root.len() > 0 && all_begin_with(files, root) {
        assert forall|i: int| 0 <= i < names.len() implies first_name(#[trigger] names[i]) == Some(
            root,
        ) by {
            assert(stands_first(root, files[i].filename@));
        }
        assert(first_name(names[0]) == Some(root));
    }
    if shared_root(names) == Some(root) {
        assert forall|i: int| 0 <= i < files.len() implies stands_first(
            root,
            (#[trigger] files[i]).filename@,
        ) by {
            assert(first_name(names[i]) == first_name(names[0]));
        }
    }
}

/// A task two of whose files begin with different names is refused, wherever in the list
/// they stand and whatever its title and destination are.
pub proof fn law_two_roots_are_refused(task: Task, i: int, j: int, a: Seq<char>, b: Seq<char>)
    requires
        0 <= i < task.files@.len(),
        0 <= j < task.files@.len(),
        stands_first(a, task.files@[i].filename@),
        stands_first(b, task.files@[j].filename@),
        a != b,
    ensures
        resolved(task) is Err,
{
    let names = filenames(task.files@);
    assert(names[i] == task.files@[i].filename@ && names[j] == task.files@[j].filename@);
    if let Some(root) = shared_root(names) {
        law_the_root_is_every_files_first_component(task.files@, root);
        lemma_stands_first_once(root, a, task.files@[i].filename@);
        lemma_stands_first_once(root, b, task.files@[j].filename@);
    }
}

/// The path a task resolves to ends in a slash and the name that each of its files begins
/// with, its title where it lists none.
pub proof fn law_the_path_ends_in_the_payloads_name(task: Task, path: Seq<char>, name: Seq<char>)
    requires
        resolved(task) == Ok::<Seq<char>, (Seq<char>, Seq<char>)>(path),
        if task.files@.len() == 0 {
            name == task.title@
        } else {
            exists|i: int|
                0 <= i < task.files@.len() && stands_first(
                    name,
                    (#[trigger] task.files@[i]).filename@,
                )
        },
    ensures
        name.len() < path.len(),
        path.skip(path.len() - name.len()) == name,
        path[path.len() - name.len() - 1] == '/',
{
    let names = filenames(task.files@);
    reveal_strlit("/");
    if task.files@.len() > 0 {
        let i = choose|i: int|
            0 <= i < task.files@.len() && stands_first(name, (#[trigger] task.files@[i]).filename@);
        let root = shared_root(names)->0;
        law_the_root_is_every_files_first_component(task.files@, root);
        lemma_stands_first_once(root, name, task.files@[i].filename@);
    }
    assert(path == path_of(normalized(task.destination@), name));
    assert(path.skip(path.len() - name.len()) =~= name);
}

/// Whether the first `k` characters of a destination are a volume: a slash, `volume` and
/// one or more digits, with a slash or nothing after them.
pub open spec fn volume_ends(s: Seq<char>, k: int) -> bool {
    &&& 8 <= k <= s.len()
    &&& s[0] == '/' && s[1] == 'v' && s[2] == 'o' && s[3] == 'l' && s[4] == 'u' && s[5] == 'm'
        && s[6] == 'e'
    &&& forall|i: int| 7 <= i < k ==> '0' <= #[trigger] s[i] <= '9'
    &&& k == s.len() || s[k] == '/'
}

/// Whether `t` is `s` without the slashes at its ends.
pub open spec fn slashes_cut(s: Seq<char>, t: Seq<char>) -> bool {
    exists|from: int, to: int|
        {
            &&& 0 <= from <= to <= s.len()
            &&& t == #[trigger] s.subrange(from, to)
            &&& forall|i: int| 0 <= i < from || to <= i < s.len() ==> #[trigger] s[i] == '/'
            &&& from < to ==> s[from] != '/' && s[to - 1] != '/'
        }
}

/// Without its leading slashes, a text begins at the first character that is none.
pub proof fn lemma_unslash_start(s: Seq<char>) -> (from: int)
    ensures
        0 <= from <= s.len(),
        unslash_start(s) == s.skip(from),
        forall|i: int| 0 <= i < from ==> #[trigger] s[i] == '/',
        from < s.len() ==> s[from] != '/',
    decreases s.len(),
{
    if s.len() > 0 && s[0] == '/' {
        let rest = s.skip(1);
        let k = lemma_unslash_start(rest);
        assert(rest.skip(k) =~= s.skip(k + 1));
        assert forall|i: int| 0 <= i < k + 1 implies #[trigger] s[i] == '/' by {
            if i > 0 {
                assert(rest[i - 1] == s[i]);
            }
        }
        if k < rest.len() {
            assert(rest[k] == s[k + 1]);
        }
        k + 1
    } else {
        assert(s.skip(0) =~= s);
        0
    }
}

/// Without its trailing slashes, a text ends at the last character that is none.
pub proof fn lemma_unslash_end(s: Seq<char>) -> (to: int)
    ensures
        0 <= to <= s.len(),
        unslash_end(s) == s.take(to),
        forall|i: int| to <= i < s.len() ==> #[trigger] s[i] == '/',
        to > 0 ==> s[to - 1] != '/',
    decreases s.len(),
{
    if s.len() > 0 && s.last() == '/' {
        let head = s.drop_last();
        let k = lemma_unslash_end(head);
        assert(head.take(k) =~= s.take(k));
        assert forall|i: int| k <= i < s.len() implies #[trigger] s[i] == '/' by {
            if i < head.len() {
                assert(head[i] == s[i]);
            }
        }
        k
    } else {
        assert(s.take(s.len() as int) =~= s);
        s.len() as int
    }
}

proof fn lemma_slashes_cut(s: Seq<char>)
    ensures
        slashes_cut(s, unslash_end(unslash_start(s))),
{
    let from = lemma_unslash_start(s);
    let rest = s.skip(from);
    let k = lemma_unslash_end(rest);
    let to = from + k;
    assert(rest.take(k) =~= s.subrange(from, to));
    assert forall|i: int| 0 <= i < from || to <= i < s.len() implies #[trigger] s[i] == '/' by {
        if to <= i {
            assert(rest[i - from] == s[i]);
        }
    }
    if k > 0 {
        assert(rest[k - 1] == s[to - 1]);
    }
}

proof fn lemma_volume_ends(s: Seq<char>)
    ensures
        s.len() > 0 && s[0] == '/' && is_volume(first_part(s.skip(1))) ==> volume_ends(
            s,
            first_part(s.skip(1)).len() as int + 1,
        ),
        forall|k: int| #[trigger]
            volume_ends(s, k) ==> s[0] == '/' && is_volume(first_part(s.skip(1))) && first_part(
                s.skip(1),
            ).len() == k - 1,
{
    reveal_strlit("volume");
    let rest = s.skip(1);
    let part = first_part(rest);
    lemma_first_part_stands_first(rest);
    if s.len() > 0 && s[0] == '/' && is_volume(part) {
        let k = part.len() as int + 1;
        assert(part.skip(6).len() > 0);
        assert forall|i: int| 0 <= i < 6 implies part[i] == #[trigger] "volume"@[i] by {
            assert("volume"@ =~= part.take(6));
        }
        assert(forall|i: int| 0 <= i < part.len() ==> #[trigger] part[i] == s[i + 1]);
        assert("volume"@[0] == 'v' && "volume"@[1] == 'o' && "volume"@[2] == 'l' && "volume"@[3]
            == 'u' && "volume"@[4] == 'm' && "volume"@[5] == 'e');
        assert(s[1] == part[0] && s[2] == part[1] && s[3] == part[2] && s[4] == part[3] && s[5]
            == part[4] && s[6] == part[5]);
        assert forall|i: int| 7 <= i < k implies '0' <= #[trigger] s[i] <= '9' by {
            assert(is_digit(part.skip(6)[i - 7]));
        }
        if k < s.len() {
            assert(rest[k - 1] == s[k]);
        }
    }
    assert forall|k: int| #[trigger] volume_ends(s, k) implies s[0] == '/' && is_volume(part)
        && part.len() == k - 1 by {
        let own = s.subrange(1, k);
        assert forall|i: int| 0 <= i < own.len() implies #[trigger] own[i] == rest[i] && own[i]
            != '/' by {
            if i >= 6 {
                assert('0' <= s[i + 1] <= '9');
            }
        }
        assert(stands_first(own, rest)) by {
            if k < s.len() {
                assert(rest[k - 1] == s[k]);
            }
        }
        lemma_stands_first_once(own, part, rest);
        assert("volume"@ =~= own.take(6));
        assert(all_digits(own.skip(6))) by {
            assert forall|i: int| 0 <= i < own.skip(6).len() implies is_digit(
                #[trigger] own.skip(6)[i],
            ) by {
                assert('0' <= s[i + 7] <= '9');
            }
        }
        assert("volume"@.is_prefix_of(own));
    }
}

/// A destination below a volume is rooted at its share: the volume goes, and the slashes
/// at both ends of what is left.
pub proof fn law_a_leading_volume_is_stripped(destination: Seq<char>, k: int)
    requires
        volume_ends(destination, k),
    ensures
        slashes_cut(destination.skip(k), normalized(destination)),
{
    lemma_volume_ends(destination);
    let s = destination;
    let rest = s.skip(1);
    let left = s.skip(k);
    lemma_slashes_cut(left);
    if k < s.len() {
        assert(rest.skip(k) =~= s.skip(k + 1));
        assert(left[0] == '/');
        assert(left.skip(1) =~= s.skip(k + 1));
    } else {
        assert(left =~= Seq::<char>::empty());
    }
}

/// A destination that names no volume loses nothing but the slashes at its ends.
pub proof fn law_any_other_destination_is_kept(destination: Seq<char>)
    requires
        forall|k: int| !#[trigger] volume_ends(destination, k),
    ensures
        slashes_cut(destination, normalized(destination)),
{
    lemma_volume_ends(destination);
    lemma_slashes_cut(destination);
}

/// A file list whose entries share no single top-level component is refused, whatever
/// the title and the destination are.
pub proof fn law_mixed_roots_are_refused(
    title: Seq<char>,
    names: Seq<Seq<char>>,
    destination: Seq<char>,
)
    requires
        names.len() > 0,
        shared_root(names) is None,
    ensures
        path_resolved(title, names, destination) == Err::<Seq<char>, (Seq<char>, Seq<char>)>(
            (title, no_root_text(names)),
        ),
{
}

/// With a file list, no title changes the path that a task resolves to.
pub proof fn law_the_title_never_overrides_the_file_list(
    title: Seq<char>,
    other: Seq<char>,
    names: Seq<Seq<char>>,
    destination: Seq<char>,
)
    requires
        names.len() > 0,
    ensures
        path_resolved(title, names, destination) matches Ok(path) ==> path_resolved(
            other,
            names,
            destination,
        ) == Ok::<Seq<char>, (Seq<char>, Seq<char>)>(path),
        path_resolved(title, names, destination) is Err <==> path_resolved(
            other,
            names,
            destination,
        ) is Err,
{
}

/// Splitting at a slash: what follows the last one is the last part.
pub proof fn lemma_split_tail(a: Seq<char>, b: Seq<char>)
    requires
        !b.contains('/'),
    ensures
        split(a.push('/') + b, '/') == split(a, '/').push(b),
    decreases b.len(),
{
    let s = a.push('/') + b;
    if b.len() == 0 {
        assert(s =~= a.push('/'));
        assert(a.push('/').drop_last() =~= a);
        assert(b =~= Seq::<char>::empty());
    } else {
        let c = b.last();
        assert(b.contains(b[b.len() - 1]));
        assert(!b.drop_last().contains('/')) by {
            assert forall|i: int| 0 <= i < b.drop_last().len() implies b.drop_last()[i] != '/' by {
                assert(b.contains(b[i]));
            }
        }
        lemma_split_tail(a, b.drop_last());
        assert(s.drop_last() =~= a.push('/') + b.drop_last());
        assert(s.last() == c);
        let before = split(a, '/').push(b.drop_last());
        assert(before.drop_last() =~= split(a, '/'));
        assert(b.drop_last().push(c) =~= b);
    }
}

/// A resolved path names exactly one object directly inside the task's destination:
/// its components are those of the normalized destination and the on-disk name.
pub proof fn law_resolved_path_is_destination_and_name(task: Task)
    ensures
        resolved(task) matches Ok(path) ==> {
            &&& name_resolved(task.title@, filenames(task.files@)) matches Ok(name)
            &&& path == path_of(normalized(task.destination@), name)
            &&& components(path) == split(normalized(task.destination@), '/').push(name)
        },
{
    if let Ok(path) = resolved(task) {
        if let Ok(name) = name_resolved(task.title@, filenames(task.files@)) {
            let destination = normalized(task.destination@);
            reveal_strlit("/");
            assert("/"@ =~= seq!['/']);
            assert(path.skip(1) =~= destination.push('/') + name);
            lemma_split_tail(destination, name);
        }
    }
}

/// The order of a delete: the task goes last, its files before it and the pause
/// before them; where the files are to go, no task goes without them.
pub proof fn law_the_task_goes_last(target: Target, delete_files: bool)
    ensures
        ({
            let ops = ops_planned(target, delete_files);
            &&& forall|i: int|
                0 <= i < ops.len() ==> (#[trigger] ops[i] is DeleteTask <==> i == ops.len() - 1)
            &&& delete_files && ops.len() > 0 ==> ops.len() == 3 && ops[0] is Pause
                && ops[1] is DeleteFiles
            &&& delete_files && target is Refused ==> ops.len() == 0
        }),
{
}

/// The only path a plan ever deletes is the one the item resolved to.
pub proof fn law_only_the_resolved_path_is_deleted(task: Task, item: DeleteItem, delete_files: bool, i: int)
    requires
        snapshot_of(task, item),
        0 <= i < ops_planned(item.target, delete_files).len(),
    ensures
        ops_planned(item.target, delete_files)[i] matches Op::DeleteFiles(path) ==> resolved(task)
            == Ok::<Seq<char>, (Seq<char>, Seq<char>)>(path@) && safe_path(path@),
{
    law_resolved_paths_are_safe(task);
}

/// Whether a character can be seen: no control character.
pub open spec fn printable(c: char) -> bool {
    c as u32 >= 0x20 && !(0x7f <= c as u32 <= 0x9f)
}

/// Whether a text may name one object: something other than white space is in it, it is
/// neither `.` nor `..`.
pub open spec fn names_something(s: Seq<char>) -> bool {
    &&& exists|k: int| 0 <= k < s.len() && !is_space(#[trigger] s[k])
    &&& s != seq!['.']
    &&& s != seq!['.', '.']
}

/// Whether `path[i..j]` is a component: what stands between a slash and the next one, or
/// the end.
pub open spec fn is_component(path: Seq<char>, i: int, j: int) -> bool {
    &&& 1 <= i <= j <= path.len()
    &&& path[i - 1] == '/'
    &&& j == path.len() || path[j] == '/'
    &&& forall|k: int| i <= k < j ==> #[trigger] path[k] != '/'
}

/// The guard, character by character: a path passes exactly where it begins with a slash,
/// has another one, holds nothing but printable characters, and each of its components
/// names something.
pub proof fn law_what_the_guard_lets_through(path: Seq<char>)
    ensures
        path_refusal(path) is None <==> {
            &&& path.len() > 0 && path[0] == '/'
            &&& forall|k: int| 0 <= k < path.len() ==> printable(#[trigger] path[k])
            &&& exists|k: int| 0 < k < path.len() && #[trigger] path[k] == '/'
            &&& forall|i: int, j: int| #[trigger]
                is_component(path, i, j) ==> names_something(path.subrange(i, j))
        },
{
    reveal_strlit(".");
    reveal_strlit("..");
    assert("."@ =~= seq!['.']);
    assert(".."@ =~= seq!['.', '.']);
    let parts = components(path);
    let rest = path.skip(1);
    law_guard_accepts_exactly_safe_paths(path);
    lemma_split_nonempty(rest, '/');
    if path.len() > 0 && path[0] == '/' {
        assert(!has_control(path) <==> forall|k: int|
            0 <= k < path.len() ==> printable(#[trigger] path[k])) by {
            if !has_control(path) {
                assert forall|k: int| 0 <= k < path.len() implies printable(#[trigger] path[k]) by {
                    assert(!is_control(path[k]));
                }
            }
        }
        if path_refusal(path) is None {
            assert forall|i: int, j: int| #[trigger] is_component(path, i, j) implies names_something(
                path.subrange(i, j),
            ) by {
                assert(is_segment(rest, '/', i - 1, j - 1)) by {
                    assert forall|k: int| i - 1 <= k < j - 1 implies #[trigger] rest[k] != '/' by {
                        assert(rest[k] == path[k + 1]);
                    }
                }
                let at = lemma_segment_is_a_part(rest, '/', i - 1, j - 1);
                assert(rest.subrange(i - 1, j - 1) =~= path.subrange(i, j));
                assert(!is_blank(parts[at]));
            }
            let (i, j) = lemma_part_is_a_segment(rest, '/', 0);
            assert(rest[j] == path[j + 1]);
        }
        if (exists|k: int| 0 < k < path.len() && #[trigger] path[k] == '/') && (forall|
            i: int,
            j: int,
        | #[trigger]
            is_component(path, i, j) ==> names_something(path.subrange(i, j))) {
            assert forall|at: int| 0 <= at < parts.len() implies !is_blank(#[trigger] parts[at])
                && parts[at] != "."@ && parts[at] != ".."@ by {
                let (i, j) = lemma_part_is_a_segment(rest, '/', at);
                assert(is_component(path, i + 1, j + 1)) by {
                    assert forall|k: int| i + 1 <= k < j + 1 implies #[trigger] path[k] != '/' by {
                        assert(rest[k - 1] == path[k]);
                    }
                    if i > 0 {
                        assert(rest[i - 1] == path[i]);
                    }
                }
                assert(rest.subrange(i, j) =~= path.subrange(i + 1, j + 1));
            }
            let k = choose|k: int| 0 < k < path.len() && #[trigger] path[k] == '/';
            assert(parts.len() >= 2) by {
                if parts.len() == 1 {
                    let (i, j) = lemma_part_is_a_segment(rest, '/', 0);
                    law_splitting_is_undone_by_joining(rest, '/');
                    assert(joined(parts, seq!['/']) == parts[0]);
                    assert(rest[k - 1] == '/');
                    assert(rest.contains('/'));
                }
            }
        }
    }
}

/// An on-disk name passes exactly where it names something, is a single component and
/// holds nothing but printable characters.
pub proof fn law_what_may_name_a_payload(name: Seq<char>)
    ensures
        name_refusal(name) is None <==> names_something(name) && (forall|k: int|
            0 <= k < name.len() ==> printable(#[trigger] name[k]) && name[k] != '/'),
{
    reveal_strlit(".");
    reveal_strlit("..");
    assert("."@ =~= seq!['.']);
    assert(".."@ =~= seq!['.', '.']);
    if name_refusal(name) is None {
        assert forall|k: int| 0 <= k < name.len() implies printable(#[trigger] name[k]) && name[k]
            != '/' by {
            assert(!is_control(name[k]));
            assert(name.contains(name[k]));
        }
    }
}

/// What is expected at the path follows from the list: one plain name is a file, anything
/// else a list holds is below a directory, and without a list either may be there.
pub proof fn law_what_kind_is_expected(files: Seq<TaskFile>, is_dir: bool)
    ensures
        files.len() == 0 ==> kind_expected(filenames(files)).takes(is_dir),
        files.len() > 1 ==> kind_expected(filenames(files)).takes(is_dir) == is_dir,
        files.len() == 1 && files[0].filename@.contains('/') ==> kind_expected(
            filenames(files),
        ).takes(is_dir) == is_dir,
        files.len() == 1 && !files[0].filename@.contains('/') ==> kind_expected(
            filenames(files),
        ).takes(is_dir) == !is_dir,
{
    if files.len() > 0 {
        assert(filenames(files)[0] == files[0].filename@);
    }
}

/// A payload demonstrably existed where the task finished, is seeding or is extracting, or
/// its counters say that all of it was downloaded, and in no other case.
pub proof fn law_when_a_payload_must_exist(payload: PayloadState)
    ensures
        payload.status is Finished || payload.status is Seeding || payload.status is Extracting
            ==> payload_expected(payload),
        payload.size > 0 && payload.downloaded >= payload.size ==> payload_expected(payload),
        payload_expected(payload) ==> payload.status is Finished || payload.status is Seeding
            || payload.status is Extracting || (payload.size > 0 && payload.downloaded
            >= payload.size),
{
}

/// Totals add up: what two lists free together is what each frees, an item that will be
/// deleted frees its size, and a skipped one nothing.
pub proof fn law_totals_add_up(a: Seq<DeleteItem>, b: Seq<DeleteItem>, item: DeleteItem)
    ensures
        bytes_freed(a + b) == bytes_freed(a) + bytes_freed(b),
        item.target is Path ==> bytes_freed(seq![item]) == item.size,
        item.target is Refused ==> bytes_freed(seq![item]) == 0,
    decreases b.len(),
{
    reveal_with_fuel(bytes_freed, 2);
    assert(seq![item].drop_last() =~= Seq::<DeleteItem>::empty());
    if b.len() == 0 {
        assert(a + b =~= a);
    } else {
        law_totals_add_up(a, b.drop_last(), item);
        assert((a + b).drop_last() =~= a + b.drop_last());
    }
}

/// A snapshot is of its task: it has the task's id, title, size, progress and status, and
/// the path it resolved to or the reason it was refused for.
pub proof fn law_a_snapshot_is_of_its_task(task: Task, item: DeleteItem)
    requires
        snapshot_of(task, item),
    ensures
        item.id@ == task.id@ && item.title@ == task.title@,
        item.size == task.size && item.downloaded == task.downloaded && item.status == task.status,
        resolved(task) is Ok <==> item.target is Path,
        item.target matches Target::Path(path) ==> resolved(task) == Ok::<
            Seq<char>,
            (Seq<char>, Seq<char>),
        >(path@),
        item.target matches Target::Refused(reason) ==> (resolved(task) matches Err(refusal)
            && reason@ == refusal.1),
        item.named <==> item.target is Path,
{
}

/// What a plan holds: where files are to stay, the task's removal alone, refused or not;
/// where they are to go, the pause, the one path and the task; and nothing at all where
/// there is no path to delete.
pub proof fn law_what_a_plan_holds(target: Target)
    ensures
        ops_planned(target, false).len() == 1 && ops_planned(target, false)[0] is DeleteTask,
        match target {
            Target::Path(path) => {
                let ops = ops_planned(target, true);
                &&& ops.len() == 3
                &&& ops[0] is Pause
                &&& ops[1] == Op::DeleteFiles(path)
                &&& ops[2] is DeleteTask
            },
            Target::Refused(_) => ops_planned(target, true).len() == 0,
        },
{
}

/// The items of a plan that are deleted and those that are refused are all of them, each in
/// its own list: the two lists of a longer plan are those of the shorter one, with the new
/// item at the end of its own.
pub proof fn law_each_item_is_deleted_or_refused(items: Seq<DeleteItem>, item: DeleteItem)
    ensures
        items_refused(items, false).len() + items_refused(items, true).len() == items.len(),
        item.target is Path ==> items_refused(items.push(item), false) == items_refused(
            items,
            false,
        ).push(item) && items_refused(items.push(item), true) == items_refused(items, true),
        item.target is Refused ==> items_refused(items.push(item), true) == items_refused(
            items,
            true,
        ).push(item) && items_refused(items.push(item), false) == items_refused(items, false),
    decreases items.len(),
{
    reveal(Seq::filter);
    assert(items.push(item).drop_last() =~= items);
    if items.len() > 0 {
        law_each_item_is_deleted_or_refused(items.drop_last(), items.last());
        assert(items.drop_last().push(items.last()) =~= items);
    }
}

} // verus!
