//! Folder locations: the components of a Windows path as the explorer
//! reads them, the text they display as, breadcrumbs and sidebar entries.
use vstd::prelude::*;
use crate::text::{chars_of, push_text, same_chars, string_from};

verus! {

/// A labelled place the user can jump to.
#[derive(Clone, Debug, PartialEq, Eq)]
pub struct Location {
    pub label: String,
    pub path: String,
}

pub struct LocationView {
    pub label: Seq<char>,
    pub path: Seq<char>,
}

impl View for Location {
    type V = LocationView;

    open spec fn view(&self) -> LocationView {
        LocationView { label: self.label@, path: self.path@ }
    }
}

pub open spec fn location_views(v: Seq<Location>) -> Seq<LocationView> {
    v.map_values(|l: Location| l@)
}

/// A folder path split into its parts: an optional prefix such as `C:` or
/// `\\server\share` (empty when there is none), whether a root separator
/// is written after it, and the names of the folders below. A prefix other
/// than a plain drive has a root even when none is written, as the
/// standard library reads `\\server\share`.
#[derive(Clone, Debug, PartialEq, Eq)]
pub struct DirPath {
    pub prefix: String,
    pub rooted: bool,
    pub names: Vec<String>,
}

pub struct DirPathView {
    pub prefix: Seq<char>,
    pub rooted: bool,
    pub names: Seq<Seq<char>>,
}

impl View for DirPath {
    type V = DirPathView;

    open spec fn view(&self) -> DirPathView {
        DirPathView {
            prefix: self.prefix@,
            rooted: self.rooted,
            names: self.names@.map_values(|n: String| n@),
        }
    }
}

pub open spec fn is_separator(c: char) -> bool {
    c == '\\' || c == '/'
}

pub open spec fn is_ascii_letter(c: char) -> bool {
    ('A' as u32 <= c as u32 && c as u32 <= 'Z' as u32) || ('a' as u32 <= c as u32 && c as u32
        <= 'z' as u32)
}

/// A plain drive prefix and nothing else: `C:`. Only after such a text
/// does pushing a name add no separator.
pub open spec fn is_drive_only(t: Seq<char>) -> bool {
    t.len() == 2 && is_ascii_letter(t[0]) && t[1] == ':'
}

/// A verbatim prefix: one that starts with `\\?\`.
pub open spec fn is_verbatim_prefix(t: Seq<char>) -> bool {
    t.len() >= 4 && t[0] == '\\' && t[1] == '\\' && t[2] == '?' && t[3] == '\\'
}

/// A verbatim drive prefix: `\\?\C:`.
pub open spec fn is_verbatim_drive(t: Seq<char>) -> bool {
    t.len() == 6 && is_verbatim_prefix(t) && is_ascii_letter(t[4]) && t[5] == ':'
}

pub open spec fn upper_char(c: char) -> char {
    if 'a' as u32 <= c as u32 && c as u32 <= 'z' as u32 {
        ((c as u32) - 32) as char
    } else {
        c
    }
}

pub open spec fn backslashed(c: char) -> char {
    if c == '/' {
        '\\'
    } else {
        c
    }
}

/// What of a prefix counts when two paths are compared: drive letters in
/// either case are the same drive, a verbatim prefix counts as written,
/// and in any other prefix `/` and `\` are the same separator.
pub open spec fn prefix_key(p: Seq<char>) -> Seq<char> {
    if is_drive_only(p) {
        seq![upper_char(p[0]), ':']
    } else if is_verbatim_drive(p) {
        p.update(4, upper_char(p[4]))
    } else if is_verbatim_prefix(p) {
        p
    } else {
        seq!['/'] + p.map_values(|c: char| backslashed(c))
    }
}

/// The text of `base` with the relative name `name` pushed onto it: a
/// separator goes between them unless `base` is empty, already ends in a
/// separator, or is a bare drive.
pub open spec fn join_text(base: Seq<char>, name: Seq<char>) -> Seq<char> {
    if base.len() > 0 && !is_separator(base.last()) && !is_drive_only(base) {
        base + seq!['\\'] + name
    } else {
        base + name
    }
}

/// The text of the path with the given parts.
pub open spec fn path_text(prefix: Seq<char>, rooted: bool, names: Seq<Seq<char>>) -> Seq<char>
    decreases names.len(),
{
    if names.len() == 0 {
        if rooted {
            prefix.push('\\')
        } else {
            prefix
        }
    } else {
        join_text(path_text(prefix, rooted, names.drop_last()), names.last())
    }
}

impl DirPathView {
    pub open spec fn text(self) -> Seq<char> {
        path_text(self.prefix, self.rooted, self.names)
    }

    /// Whether the path has a root: one is written, or the prefix is one
    /// that implies it (any prefix but a plain drive).
    pub open spec fn has_root(self) -> bool {
        self.rooted || (self.prefix.len() > 0 && !is_drive_only(self.prefix))
    }

    /// Whether two paths are equal as the standard library compares them:
    /// the same prefix, both with a root or both without, and the same
    /// folder names.
    pub open spec fn same_path(self, other: DirPathView) -> bool {
        &&& prefix_key(self.prefix) == prefix_key(other.prefix)
        &&& self.has_root() == other.has_root()
        &&& self.names == other.names
    }

    /// The path one level up, when the last part is a folder name.
    pub open spec fn parent(self) -> Option<DirPathView> {
        if self.names.len() > 0 {
            Some(DirPathView { prefix: self.prefix, rooted: self.rooted, names: self.names.drop_last() })
        } else {
            None
        }
    }

    /// Breadcrumbs for every part: the prefix, then each folder name with
    /// the path that ends at it.
    pub open spec fn all_crumbs(self) -> Seq<LocationView> {
        let head = if self.prefix.len() > 0 {
            seq![LocationView { label: self.prefix, path: self.prefix }]
        } else {
            Seq::<LocationView>::empty()
        };
        head + Seq::new(
            self.names.len(),
            |k: int|
                LocationView {
                    label: self.names[k],
                    path: path_text(self.prefix, self.rooted, self.names.take(k + 1)),
                },
        )
    }
}

/// At most six breadcrumbs: a longer trail keeps its first crumb and its
/// last five.
pub open spec fn compact_crumbs(all: Seq<LocationView>) -> Seq<LocationView> {
    if all.len() > 6 {
        seq![all[0]] + all.skip(all.len() - 5)
    } else {
        all
    }
}

fn is_letter(c: char) -> (r: bool)
    ensures
        r == is_ascii_letter(c),
{
    let k = c as u32;
    (65 <= k && k <= 90) || (97 <= k && k <= 122)
}

fn drive_only(t: &Vec<char>) -> (r: bool)
    ensures
        r == is_drive_only(t@),
{
    t.len() == 2 && is_letter(t[0]) && t[1] == ':'
}

fn verbatim(t: &Vec<char>) -> (r: bool)
    ensures
        r == is_verbatim_prefix(t@),
{
    t.len() >= 4 && t[0] == '\\' && t[1] == '\\' && t[2] == '?' && t[3] == '\\'
}

fn upper(c: char) -> (r: char)
    ensures
        r == upper_char(c),
{
    if 'a' <= c && c <= 'z' {
        let k = (c as u32 - 32) as u8;
        k as char
    } else {
        c
    }
}

/// The part of a prefix that counts when paths are compared.
fn prefix_key_chars(p: &Vec<char>) -> (r: Vec<char>)
    ensures
        r@ == prefix_key(p@),
{
    if drive_only(p) {
        let mut r: Vec<char> = Vec::new();
        r.push(upper(p[0]));
        r.push(':');
        assert(r@ =~= prefix_key(p@));
        r
    } else if verbatim(p) && p.len() == 6 && is_letter(p[4]) && p[5] == ':' {
        let mut r = p.clone();
        assert(r@ == p@) by {
            assert(r@ =~= p@);
        }
        r.set(4, upper(p[4]));
        assert(r@ =~= prefix_key(p@));
        r
    } else if verbatim(p) {
        let r = p.clone();
        assert(r@ =~= p@);
        r
    } else {
        let mut r: Vec<char> = Vec::new();
        r.push('/');
        let mut i: usize = 0;
        while i < p.len()
            invariant
                i <= p.len(),
                r@ == seq!['/'] + p@.take(i as int).map_values(|c: char| backslashed(c)),
            decreases p.len() - i,
        {
            let c = p[i];
            r.push(if c == '/' { '\\' } else { c });
            assert(p@.take(i + 1).map_values(|c: char| backslashed(c)) =~= p@.take(i as int).map_values(
                |c: char| backslashed(c),
            ).push(backslashed(p@[i as int])));
            i = i + 1;
        }
        assert(p@.take(p.len() as int) =~= p@);
        r
    }
}

/// Pushes `name` onto the path text held in `base`.
pub fn push_name(base: &mut Vec<char>, name: &str)
    ensures
        final(base)@ == join_text(old(base)@, name@),
{
    if base.len() > 0 && base[base.len() - 1] != '\\' && base[base.len() - 1] != '/'
        && !drive_only(base) {
        base.push('\\');
    }
    push_text(base, name);
}

/// Copies a text.
pub fn copy_string(s: &String) -> (r: String)
    ensures
        r@ == s@,
{
    s.clone()
}

/// Copies a list of texts.
pub fn copy_strings(v: &Vec<String>) -> (r: Vec<String>)
    ensures
        r@.map_values(|n: String| n@) == v@.map_values(|n: String| n@),
{
    let mut r: Vec<String> = Vec::new();
    let mut i: usize = 0;
    while i < v.len()
        invariant
            i <= v.len(),
            r@.map_values(|n: String| n@) == v@.take(i as int).map_values(|n: String| n@),
        decreases v.len() - i,
    {
        r.push(copy_string(&v[i]));
        assert(v@.take(i + 1).map_values(|n: String| n@) =~= v@.take(i as int).map_values(
            |n: String| n@,
        ).push(v@[i as int]@));
        assert(r@.map_values(|n: String| n@) =~= v@.take(i as int).map_values(|n: String| n@).push(
            v@[i as int]@,
        ));
        i = i + 1;
    }
    assert(v@.take(v.len() as int) =~= v@);
    r
}

impl DirPath {
    pub fn new(prefix: String, rooted: bool, names: Vec<String>) -> (r: DirPath)
        ensures
            r@ == (DirPathView { prefix: prefix@, rooted, names: names@.map_values(|n: String| n@) }),
    {
        DirPath { prefix, rooted, names }
    }

    pub fn duplicate(&self) -> (r: DirPath)
        ensures
            r@ == self@,
    {
        DirPath { prefix: copy_string(&self.prefix), rooted: self.rooted, names: copy_strings(&self.names) }
    }

    /// The path's text, as the standard library displays it.
    pub fn text(&self) -> (r: String)
        ensures
            r@ == self@.text(),
    {
        let chars = self.text_chars(self.names.len());
        assert(self@.names.take(self.names.len() as int) =~= self@.names);
        string_from(&chars)
    }

    /// The text of the path made of the prefix, the root and the first
    /// `count` names.
    fn text_chars(&self, count: usize) -> (r: Vec<char>)
        requires
            count <= self.names.len(),
        ensures
            r@ == path_text(self@.prefix, self@.rooted, self@.names.take(count as int)),
    {
        let mut out = chars_of(self.prefix.as_str());
        if self.rooted {
            out.push('\\');
        }
        let mut i: usize = 0;
        while i < count
            invariant
                i <= count,
                count <= self.names.len(),
                out@ == path_text(self@.prefix, self@.rooted, self@.names.take(i as int)),
            decreases count - i,
        {
            push_name(&mut out, self.names[i].as_str());
            assert(self@.names.take(i + 1).drop_last() =~= self@.names.take(i as int));
            i = i + 1;
        }
        out
    }

    /// Whether two paths are equal as the standard library compares them:
    /// drive letters in either case, and an implied root like a written one.
    pub fn same_as(&self, other: &DirPath) -> (r: bool)
        ensures
            r == self@.same_path(other@),
    {
        let a = prefix_key_chars(&chars_of(self.prefix.as_str()));
        let b = prefix_key_chars(&chars_of(other.prefix.as_str()));
        if !same_chars(&a, &b) {
            return false;
        }
        let a_root = self.rooted || (!self.prefix.as_str().is_empty() && !drive_only(&chars_of(self.prefix.as_str())));
        let b_root = other.rooted || (!other.prefix.as_str().is_empty() && !drive_only(&chars_of(other.prefix.as_str())));
        if a_root != b_root {
            return false;
        }
        if self.names.len() != other.names.len() {
            assert(self@.names.len() != other@.names.len());
            return false;
        }
        let mut i: usize = 0;
        while i < self.names.len()
            invariant
                i <= self.names.len(),
                self.names.len() == other.names.len(),
                forall|k: int| 0 <= k < i ==> self@.names[k] == other@.names[k],
            decreases self.names.len() - i,
        {
            if self.names[i] != other.names[i] {
                assert(self@.names[i as int] != other@.names[i as int]);
                return false;
            }
            i = i + 1;
        }
        assert(self@.names =~= other@.names);
        true
    }

    /// Whether there is a folder one level up.
    pub fn has_parent(&self) -> (r: bool)
        ensures
            r == self@.parent() is Some,
    {
        self.names.len() > 0
    }

    /// The path one level up, if the last part is a folder name.
    pub fn parent(&self) -> (r: Option<DirPath>)
        ensures
            r matches Some(p) ==> self@.parent() == Some(p@),
            r is None ==> self@.parent() is None,
    {
        if self.names.len() == 0 {
            return None;
        }
        let mut names = copy_strings(&self.names);
        let _ = names.pop();
        assert(names@.map_values(|n: String| n@) =~= self@.names.drop_last());
        Some(DirPath { prefix: copy_string(&self.prefix), rooted: self.rooted, names })
    }

    /// The last folder name, if the path ends in one that is not empty.
    pub fn file_name(&self) -> (r: Option<String>)
        ensures
            r matches Some(n) ==> self@.names.len() > 0 && n@ == self@.names.last() && n@.len() > 0,
            r is None ==> self@.names.len() == 0 || self@.names.last().len() == 0,
    {
        if self.names.len() == 0 {
            return None;
        }
        let last = &self.names[self.names.len() - 1];
        if last.as_str().is_empty() {
            None
        } else {
            Some(copy_string(last))
        }
    }

    /// Breadcrumbs for the path: every part with the path that ends at it,
    /// compacted to the first crumb and the last five when there are more
    /// than six.
    pub fn breadcrumbs(&self) -> (r: Vec<Location>)
        ensures
            location_views(r@) == compact_crumbs(self@.all_crumbs()),
    {
        let mut all: Vec<Location> = Vec::new();
        let has_prefix = !self.prefix.as_str().is_empty();
        if has_prefix {
            all.push(Location { label: copy_string(&self.prefix), path: copy_string(&self.prefix) });
        }
        let ghost head = if self@.prefix.len() > 0 {
            seq![LocationView { label: self@.prefix, path: self@.prefix }]
        } else {
            Seq::<LocationView>::empty()
        };
        let ghost crumbs = self@.all_crumbs();
        assert(location_views(all@) =~= head);
        let mut i: usize = 0;
        while i < self.names.len()
            invariant
                i <= self.names.len(),
                crumbs == self@.all_crumbs(),
                head.len() == (if self@.prefix.len() > 0 { 1int } else { 0int }),
                crumbs.len() == head.len() + self@.names.len(),
                location_views(all@) =~= crumbs.take(head.len() + i),
            decreases self.names.len() - i,
        {
            let path_chars = self.text_chars(i + 1);
            let loc = Location { label: copy_string(&self.names[i]), path: string_from(&path_chars) };
            assert(loc@ == crumbs[head.len() + i]);
            all.push(loc);
            assert(crumbs.take(head.len() + i + 1) =~= crumbs.take(head.len() + i).push(
                crumbs[head.len() + i],
            ));
            assert(location_views(all@) =~= location_views(all@.drop_last()).push(loc@));
            i = i + 1;
        }
        assert(crumbs.take(crumbs.len() as int) =~= crumbs);
        if all.len() > 6 {
            let tail_start = all.len() - 5;
            let mut compact: Vec<Location> = Vec::new();
            compact.push(Location { label: copy_string(&all[0].label), path: copy_string(&all[0].path) });
            let mut j: usize = tail_start;
            while j < all.len()
                invariant
                    tail_start <= j <= all.len(),
                    tail_start == all.len() - 5,
                    location_views(compact@) =~= seq![location_views(all@)[0]] + location_views(
                        all@,
                    ).subrange(tail_start as int, j as int),
                decreases all.len() - j,
            {
                let loc = Location { label: copy_string(&all[j].label), path: copy_string(&all[j].path) };
                let ghost lv = location_views(all@);
                assert(loc@ == lv[j as int]);
                let ghost prev = compact@;
                compact.push(loc);
                assert(compact@ == prev.push(loc));
                assert(location_views(compact@) =~= location_views(prev).push(loc@));
                assert(lv.subrange(tail_start as int, j + 1) =~= lv.subrange(tail_start as int, j as int).push(lv[j as int]));
                j = j + 1;
            }
            compact
        } else {
            all
        }
    }
}

/// The last breadcrumb names the folder itself, and there are never more
/// than six.
pub proof fn lemma_last_crumb_is_folder(p: DirPathView)
    requires
        p.names.len() > 0,
    ensures
        compact_crumbs(p.all_crumbs()).len() <= 6,
        compact_crumbs(p.all_crumbs()).last() == (LocationView { label: p.names.last(), path: p.text() }),
{
    let all = p.all_crumbs();
    assert(p.names.take(p.names.len() as int) =~= p.names);
    assert(all.last() == (LocationView { label: p.names.last(), path: p.text() }));
}

/// The sidebar's folders under a user profile, before checking which
/// exist: the profile itself, then its pictures, documents and downloads.
pub open spec fn profile_folder_views(profile: Seq<char>) -> Seq<LocationView> {
    seq![
        LocationView { label: "🏠 Home"@, path: profile },
        LocationView { label: "🖼 Pictures"@, path: join_text(profile, "Pictures"@) },
        LocationView { label: "📄 Documents"@, path: join_text(profile, "Documents"@) },
        LocationView { label: "⬇ Downloads"@, path: join_text(profile, "Downloads"@) },
    ]
}

fn profile_child(profile: &str, label: &str, child: &str) -> (r: Location)
    ensures
        r@ == (LocationView { label: label@, path: join_text(profile@, child@) }),
{
    let mut path = chars_of(profile);
    push_name(&mut path, child);
    Location { label: label.to_owned(), path: string_from(&path) }
}

/// The sidebar's candidate folders under the user profile `profile`.
pub fn profile_folders(profile: &str) -> (r: Vec<Location>)
    ensures
        location_views(r@) == profile_folder_views(profile@),
{
    let mut r: Vec<Location> = Vec::new();
    r.push(Location { label: "🏠 Home".to_owned(), path: profile.to_owned() });
    r.push(profile_child(profile, "🖼 Pictures", "Pictures"));
    r.push(profile_child(profile, "📄 Documents", "Documents"));
    r.push(profile_child(profile, "⬇ Downloads", "Downloads"));
    assert(location_views(r@) =~= profile_folder_views(profile@));
    r
}

/// The sidebar entry for the drive with the given letter: `X:\` shown as
/// `▣ X:`.
pub open spec fn drive_view(letter: char) -> LocationView {
    LocationView { label: "▣ "@ + seq![letter, ':'], path: seq![letter, ':', '\\'] }
}

/// The letter at position `k` of the alphabet, upper case.
pub open spec fn drive_letter(k: int) -> char {
    ((65 + k) as u32) as char
}

/// The sidebar's candidate drives, `A:\` to `Z:\`, before checking which
/// exist.
pub fn drive_roots() -> (r: Vec<Location>)
    ensures
        location_views(r@) == drive_root_views(),
{
    let mut r: Vec<Location> = Vec::new();
    let mut k: u8 = 0;
    while k < 26
        invariant
            k <= 26,
            location_views(r@) == Seq::new(k as nat, |j: int| drive_view(drive_letter(j))),
        decreases 26 - k,
    {
        let letter = (65 + k) as char;
        assert(letter == drive_letter(k as int));
        let mut label = chars_of("▣ ");
        label.push(letter);
        label.push(':');
        let mut path: Vec<char> = Vec::new();
        path.push(letter);
        path.push(':');
        path.push('\\');
        assert(label@ =~= "▣ "@ + seq![letter, ':']);
        assert(path@ =~= seq![letter, ':', '\\']);
        let loc = Location { label: string_from(&label), path: string_from(&path) };
        assert(loc@ == drive_view(letter));
        let ghost prev = r@;
        r.push(loc);
        assert(location_views(r@) =~= location_views(prev).push(loc@));
        assert(Seq::new((k + 1) as nat, |j: int| drive_view(drive_letter(j))) =~= Seq::new(
            k as nat,
            |j: int| drive_view(drive_letter(j)),
        ).push(drive_view(drive_letter(k as int))));
        k = k + 1;
    }
    r
}

/// The sidebar's candidate drives, `A:\` to `Z:\`, in letter order.
pub open spec fn drive_root_views() -> Seq<LocationView> {
    Seq::new(26, |k: int| drive_view(drive_letter(k)))
}

/// The items whose flag is set, in order; an item with no flag is left
/// out.
pub open spec fn kept(items: Seq<LocationView>, flags: Seq<bool>) -> Seq<LocationView>
    decreases items.len(),
{
    if items.len() == 0 {
        Seq::<LocationView>::empty()
    } else {
        let rest = kept(items.drop_last(), flags);
        if items.len() - 1 < flags.len() && flags[items.len() - 1] {
            rest.push(items.last())
        } else {
            rest
        }
    }
}

/// Keeps the candidates whose flag is set, in order.
pub fn keep_flagged(candidates: &Vec<Location>, flags: &Vec<bool>) -> (r: Vec<Location>)
    ensures
        location_views(r@) == kept(location_views(candidates@), flags@),
{
    let ghost cv = location_views(candidates@);
    let mut r: Vec<Location> = Vec::new();
    let mut i: usize = 0;
    assert(location_views(r@) =~= kept(cv.take(0), flags@));
    while i < candidates.len()
        invariant
            i <= candidates.len(),
            cv == location_views(candidates@),
            location_views(r@) == kept(cv.take(i as int), flags@),
        decreases candidates.len() - i,
    {
        let ghost before = r@;
        assert(cv.take(i + 1).drop_last() =~= cv.take(i as int));
        if i < flags.len() && flags[i] {
            let c = &candidates[i];
            let item = Location { label: copy_string(&c.label), path: copy_string(&c.path) };
            assert(item@ == cv[i as int]);
            r.push(item);
            assert(location_views(r@) =~= location_views(before).push(item@));
        }
        i = i + 1;
    }
    assert(cv.take(candidates.len() as int) =~= cv);
    r
}

/// A verbatim path made friendly: `\\?\UNC\server\share` becomes
/// `\\server\share` and `\\?\C:\dir` becomes `C:\dir`; other paths are
/// kept.
pub open spec fn user_facing(t: Seq<char>) -> Seq<char> {
    let unc = seq!['\\', '\\', '?', '\\', 'U', 'N', 'C', '\\'];
    let verbatim = seq!['\\', '\\', '?', '\\'];
    if t.len() >= 8 && t.take(8) == unc {
        seq!['\\', '\\'] + t.skip(8)
    } else if t.len() >= 4 && t.take(4) == verbatim {
        t.skip(4)
    } else {
        t
    }
}

/// Whether `t` starts with the characters of `p`.
pub fn starts_with_text(t: &Vec<char>, p: &Vec<char>) -> (r: bool)
    ensures
        r == (p@.len() <= t@.len() && t@.take(p@.len() as int) == p@),
{
    if p.len() > t.len() {
        return false;
    }
    let mut i: usize = 0;
    while i < p.len()
        invariant
            i <= p.len(),
            p.len() <= t.len(),
            forall|k: int| 0 <= k < i ==> t@[k] == p@[k],
        decreases p.len() - i,
    {
        if t[i] != p[i] {
            assert(t@.take(p@.len() as int)[i as int] != p@[i as int]);
            return false;
        }
        i = i + 1;
    }
    assert(t@.take(p@.len() as int) =~= p@);
    true
}

/// Strips a verbatim prefix from a canonical path, as the explorer shows
/// canonical folders to the user.
pub fn user_facing_path(path: String) -> (r: String)
    ensures
        r@ == user_facing(path@),
{
    let t = chars_of(path.as_str());
    let unc = chars_of("\\\\?\\UNC\\");
    let verbatim = chars_of("\\\\?\\");
    proof {
        reveal_strlit("\\\\?\\UNC\\");
        reveal_strlit("\\\\?\\");
    }
    assert(unc@ =~= seq!['\\', '\\', '?', '\\', 'U', 'N', 'C', '\\']);
    assert(verbatim@ =~= seq!['\\', '\\', '?', '\\']);
    if starts_with_text(&t, &unc) {
        let mut out: Vec<char> = Vec::new();
        out.push('\\');
        out.push('\\');
        let mut i: usize = 8;
        while i < t.len()
            invariant
                8 <= i <= t.len(),
                out@ == seq!['\\', '\\'] + t@.subrange(8, i as int),
            decreases t.len() - i,
        {
            out.push(t[i]);
            assert(t@.subrange(8, i + 1) =~= t@.subrange(8, i as int).push(t@[i as int]));
            i = i + 1;
        }
        assert(t@.subrange(8, t@.len() as int) =~= t@.skip(8));
        string_from(&out)
    } else if starts_with_text(&t, &verbatim) {
        let mut out: Vec<char> = Vec::new();
        let mut i: usize = 4;
        while i < t.len()
            invariant
                4 <= i <= t.len(),
                out@ == t@.subrange(4, i as int),
            decreases t.len() - i,
        {
            out.push(t[i]);
            assert(t@.subrange(4, i + 1) =~= t@.subrange(4, i as int).push(t@[i as int]));
            i = i + 1;
        }
        assert(t@.subrange(4, t@.len() as int) =~= t@.skip(4));
        string_from(&out)
    } else {
        path
    }
}

} // verus!
