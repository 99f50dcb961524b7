//! One listed item of a folder and the texts shown for it: type, icon,
//! size and modification time.
use vstd::prelude::*;
use crate::native::{TableRow, TableRowView};
use crate::path::copy_string;
use crate::text::{
    ascii_lower, ascii_lower_chars, chars_of, decimal, push_decimal, push_text, push_zero_padded,
    string_from, text_is, zero_padded,
};

verus! {

/// A file or folder found in the current folder.
#[derive(Clone, Debug, PartialEq, Eq)]
pub struct FileEntry {
    path: String,
    name: String,
    modified_ticks: u64,
    modified: String,
    kind: String,
    size: u64,
    size_display: String,
    icon: String,
    is_dir: bool,
}

pub struct EntryView {
    pub path: Seq<char>,
    pub name: Seq<char>,
    pub modified_ticks: u64,
    pub modified: Seq<char>,
    pub kind: Seq<char>,
    pub size: u64,
    pub size_display: Seq<char>,
    pub icon: Seq<char>,
    pub is_dir: bool,
}

impl View for FileEntry {
    type V = EntryView;

    closed spec fn view(&self) -> EntryView {
        EntryView {
            path: self.path@,
            name: self.name@,
            modified_ticks: self.modified_ticks,
            modified: self.modified@,
            kind: self.kind@,
            size: self.size,
            size_display: self.size_display@,
            icon: self.icon@,
            is_dir: self.is_dir,
        }
    }
}

pub open spec fn entry_views(v: Seq<FileEntry>) -> Seq<EntryView> {
    v.map_values(|e: FileEntry| e@)
}

/// Index of the last `.` in `s`, or -1.
pub open spec fn last_dot(s: Seq<char>) -> int
    decreases s.len(),
{
    if s.len() == 0 {
        -1
    } else if s.last() == '.' {
        s.len() - 1
    } else {
        last_dot(s.drop_last())
    }
}

/// The extension of a file name: what follows its last `.`, empty when
/// there is no dot or the only dot starts the name.
pub open spec fn extension(name: Seq<char>) -> Seq<char> {
    let d = last_dot(name);
    if d <= 0 {
        Seq::<char>::empty()
    } else {
        name.skip(d + 1)
    }
}

/// The type column for a file with the given lower-case extension.
pub open spec fn kind_for(ext: Seq<char>) -> Seq<char> {
    if ext == "exe"@ {
        "Application"@
    } else if ext == "dll"@ {
        "Application extension"@
    } else if ext == "rs"@ {
        "Rust source file"@
    } else if ext == "toml"@ {
        "TOML file"@
    } else if ext == "md"@ {
        "Markdown file"@
    } else if ext == "txt"@ {
        "Text document"@
    } else if is_image_extension(ext) {
        "Image file"@
    } else if is_archive_extension(ext) {
        "Compressed archive"@
    } else if ext == "json"@ {
        "JSON file"@
    } else {
        "File"@
    }
}

pub open spec fn is_image_extension(ext: Seq<char>) -> bool {
    ext == "png"@ || ext == "jpg"@ || ext == "jpeg"@ || ext == "gif"@ || ext == "webp"@
}

pub open spec fn is_archive_extension(ext: Seq<char>) -> bool {
    ext == "zip"@ || ext == "7z"@ || ext == "rar"@
}

/// The type column of an item.
pub open spec fn file_kind_text(name: Seq<char>, is_dir: bool) -> Seq<char> {
    if is_dir {
        "File folder"@
    } else {
        kind_for(ascii_lower(extension(name)))
    }
}

/// The icon of a file with the given lower-case extension.
pub open spec fn icon_for(ext: Seq<char>) -> Seq<char> {
    if is_image_extension(ext) {
        "🖼"@
    } else if is_archive_extension(ext) {
        "🗜"@
    } else if ext == "exe"@ {
        "▣"@
    } else {
        "📄"@
    }
}

/// The icon of an item.
pub open spec fn file_icon_text(name: Seq<char>, is_dir: bool) -> Seq<char> {
    if is_dir {
        "📁"@
    } else {
        icon_for(ascii_lower(extension(name)))
    }
}

pub const KIB: u64 = 1024;

pub const MIB: u64 = 1048576;

pub const GIB: u64 = 1073741824;

/// `num / den` rounded to the nearest integer, ties to the even one.
pub open spec fn round_half_even(num: nat, den: nat) -> nat {
    let q = num / den;
    let r = num % den;
    if 2 * r > den || (2 * r == den && q % 2 == 1) {
        q + 1
    } else {
        q
    }
}

/// The spacing of the values of type `f64` around `b`: 1 below 2^53,
/// doubling with each further bit.
pub open spec fn f64_spacing(b: nat) -> nat
    decreases b,
{
    if b < 0x20_0000_0000_0000 {
        1
    } else {
        2 * f64_spacing(b / 2)
    }
}

/// The value that `b as f64` holds: `b` rounded to 53 significant bits,
/// ties to even.
pub open spec fn f64_value(b: nat) -> nat {
    let u = f64_spacing(b);
    round_half_even(b, u) * u
}

/// A count of tenths written with one decimal, as in `12.5`.
pub open spec fn one_decimal(tenths: nat) -> Seq<char> {
    decimal(tenths / 10).push('.') + decimal(tenths % 10)
}

/// The size column of a file of `bytes` bytes. Megabytes and gigabytes
/// show `bytes as f64` divided by the unit with one decimal, rounded half
/// to even as `{:.1}` formats it; kilobytes are rounded up.
pub open spec fn size_text(bytes: nat) -> Seq<char> {
    if bytes >= GIB {
        one_decimal(round_half_even(10 * f64_value(bytes), GIB as nat)) + " GB"@
    } else if bytes >= MIB {
        one_decimal(round_half_even(10 * f64_value(bytes), MIB as nat)) + " MB"@
    } else if bytes >= KIB {
        decimal(((bytes + 1023) / 1024) as nat) + " KB"@
    } else {
        decimal(bytes) + " B"@
    }
}

/// `num / den` rounded half to even, computed.
fn round_half_even_u128(num: u128, den: u128) -> (r: u128)
    requires
        den > 0,
        num / den < u128::MAX,
    ensures
        r == round_half_even(num as nat, den as nat),
{
    let q = num / den;
    let r = num % den;
    if r > den - r || (r == den - r && q % 2 == 1) {
        q + 1
    } else {
        q
    }
}

/// The value `b as f64` holds, as an integer.
fn f64_value_u64(b: u64) -> (r: u128)
    ensures
        r == f64_value(b as nat),
        r <= 2 * (b as nat),
{
    let mut x: u64 = b;
    let mut u: u128 = 1;
    while x >= 0x20_0000_0000_0000
        invariant
            u >= 1,
            x == (b as nat) / (u as nat),
            f64_spacing(b as nat) == u * f64_spacing(x as nat),
            u * (x as nat) <= b,
            u == 1 || x >= 0x10_0000_0000_0000,
            u <= 0x1_0000_0000_0000_0000,
        decreases x,
    {
        assert(u <= b) by (nonlinear_arith)
            requires
                u * (x as nat) <= b,
                x >= 1,
        ;
        assert(f64_spacing(x as nat) == 2 * f64_spacing((x / 2) as nat));
        assert(u * (2 * f64_spacing((x / 2) as nat)) == (2 * u) * f64_spacing((x / 2) as nat))
            by (nonlinear_arith);
        proof {
            vstd::arithmetic::div_mod::lemma_div_denominator(b as int, u as int, 2);
        }
        assert((2 * u) * ((x / 2) as nat) <= u * (x as nat)) by (nonlinear_arith)
            requires
                u >= 1,
        ;
        x = x / 2;
        u = 2 * u;
        assert(u <= b) by (nonlinear_arith)
            requires
                u * (x as nat) <= b,
                x >= 1,
        ;
    }
    assert(f64_spacing(x as nat) == 1);
    assert(f64_spacing(b as nat) == u);
    let q = x as u128;
    assert(q * u == u * (x as nat)) by (nonlinear_arith)
        requires
            q == x,
    ;
    let rest = (b as u128) - q * u;
    proof {
        vstd::arithmetic::div_mod::lemma_fundamental_div_mod(b as int, u as int);
        assert((b as nat) % (u as nat) == rest);
        assert((b as nat) / (u as nat) == q);
    }
    let rounded = if rest > u - rest || (rest == u - rest && q % 2 == 1) {
        q + 1
    } else {
        q
    };
    assert(rounded == round_half_even(b as nat, u as nat));
    assert(rounded <= 2 * q);
    assert(rounded * u <= 2 * (b as nat)) by (nonlinear_arith)
        requires
            rounded <= 2 * q,
            q * u <= b,
    ;
    rounded * u
}

/// The size column of a file of `bytes` bytes.
pub fn format_size(bytes: u64) -> (r: String)
    ensures
        r@ == size_text(bytes as nat),
{
    let mut out: Vec<char> = Vec::new();
    if bytes >= GIB || bytes >= MIB {
        let unit: u128 = if bytes >= GIB {
            GIB as u128
        } else {
            MIB as u128
        };
        let value = f64_value_u64(bytes);
        let tenths = round_half_even_u128(10 * value, unit);
        push_decimal(&mut out, tenths / 10);
        out.push('.');
        push_decimal(&mut out, tenths % 10);
        if bytes >= GIB {
            push_text(&mut out, " GB");
        } else {
            push_text(&mut out, " MB");
        }
    } else if bytes >= KIB {
        push_decimal(&mut out, ((bytes as u128) + 1023) / 1024);
        push_text(&mut out, " KB");
    } else {
        push_decimal(&mut out, bytes as u128);
        push_text(&mut out, " B");
    }
    string_from(&out)
}

/// `year/month/day hour:minute` with four-digit years and two-digit
/// fields.
pub open spec fn timestamp_text(year: nat, month: nat, day: nat, hour: nat, minute: nat) -> Seq<
    char,
> {
    zero_padded(year, 4) + "/"@ + zero_padded(month, 2) + "/"@ + zero_padded(day, 2) + " "@
        + zero_padded(hour, 2) + ":"@ + zero_padded(minute, 2)
}

/// The modification column for a local time.
pub fn format_timestamp(year: u16, month: u16, day: u16, hour: u16, minute: u16) -> (r: String)
    ensures
        r@ == timestamp_text(year as nat, month as nat, day as nat, hour as nat, minute as nat),
{
    let mut out: Vec<char> = Vec::new();
    push_zero_padded(&mut out, year as u128, 4);
    push_text(&mut out, "/");
    push_zero_padded(&mut out, month as u128, 2);
    push_text(&mut out, "/");
    push_zero_padded(&mut out, day as u128, 2);
    push_text(&mut out, " ");
    push_zero_padded(&mut out, hour as u128, 2);
    push_text(&mut out, ":");
    push_zero_padded(&mut out, minute as u128, 2);
    string_from(&out)
}

/// The extension of a file name, computed.
fn extension_chars(name: &Vec<char>) -> (r: Vec<char>)
    ensures
        r@ == extension(name@),
{
    let mut i: usize = name.len();
    assert(name@.take(i as int) =~= name@);
    while i > 0 && name[i - 1] != '.'
        invariant
            i <= name.len(),
            last_dot(name@) == last_dot(name@.take(i as int)),
        decreases i,
    {
        assert(name@.take(i as int).drop_last() =~= name@.take(i - 1));
        i = i - 1;
    }
    if i <= 1 {
        proof {
            if i == 1 {
                assert(name@.take(1).last() == '.');
            } else {
                assert(name@.take(0).len() == 0);
            }
        }
        return Vec::new();
    }
    assert(name@.take(i as int).last() == '.');
    let mut out: Vec<char> = Vec::new();
    let mut j: usize = i;
    while j < name.len()
        invariant
            i <= j <= name.len(),
            out@ == name@.subrange(i as int, j as int),
        decreases name.len() - j,
    {
        out.push(name[j]);
        assert(name@.subrange(i as int, j + 1) =~= name@.subrange(i as int, j as int).push(
            name@[j as int],
        ));
        j = j + 1;
    }
    assert(name@.subrange(i as int, name.len() as int) =~= name@.skip(i as int));
    out
}

fn is_image(ext: &Vec<char>) -> (r: bool)
    ensures
        r == is_image_extension(ext@),
{
    text_is(ext, "png") || text_is(ext, "jpg") || text_is(ext, "jpeg") || text_is(ext, "gif")
        || text_is(ext, "webp")
}

fn is_archive(ext: &Vec<char>) -> (r: bool)
    ensures
        r == is_archive_extension(ext@),
{
    text_is(ext, "zip") || text_is(ext, "7z") || text_is(ext, "rar")
}

/// The type column of an item called `name`.
pub fn file_kind(name: &str, is_dir: bool) -> (r: String)
    ensures
        r@ == file_kind_text(name@, is_dir),
{
    if is_dir {
        return "File folder".to_owned();
    }
    let ext = ascii_lower_chars(&extension_chars(&chars_of(name)));
    if text_is(&ext, "exe") {
        "Application".to_owned()
    } else if text_is(&ext, "dll") {
        "Application extension".to_owned()
    } else if text_is(&ext, "rs") {
        "Rust source file".to_owned()
    } else if text_is(&ext, "toml") {
        "TOML file".to_owned()
    } else if text_is(&ext, "md") {
        "Markdown file".to_owned()
    } else if text_is(&ext, "txt") {
        "Text document".to_owned()
    } else if is_image(&ext) {
        "Image file".to_owned()
    } else if is_archive(&ext) {
        "Compressed archive".to_owned()
    } else if text_is(&ext, "json") {
        "JSON file".to_owned()
    } else {
        "File".to_owned()
    }
}

/// The icon of an item called `name`.
pub fn file_icon(name: &str, is_dir: bool) -> (r: String)
    ensures
        r@ == file_icon_text(name@, is_dir),
{
    if is_dir {
        return "📁".to_owned();
    }
    let ext = ascii_lower_chars(&extension_chars(&chars_of(name)));
    if is_image(&ext) {
        "🖼".to_owned()
    } else if is_archive(&ext) {
        "🗜".to_owned()
    } else if text_is(&ext, "exe") {
        "▣".to_owned()
    } else {
        "📄".to_owned()
    }
}

/// The key under which the table knows an item: the text of its path.
pub fn path_key(path: &str) -> (r: String)
    ensures
        r@ == path@,
{
    path.to_owned()
}

/// The entry for an item as it is listed: folders show no size and count
/// as size 0.
pub open spec fn entry_from(
    path: Seq<char>,
    name: Seq<char>,
    is_dir: bool,
    size: u64,
    modified_ticks: u64,
    modified: Seq<char>,
) -> EntryView {
    EntryView {
        path,
        name,
        modified_ticks,
        modified,
        kind: file_kind_text(name, is_dir),
        size: if is_dir { 0 } else { size },
        size_display: if is_dir { Seq::<char>::empty() } else { size_text(size as nat) },
        icon: file_icon_text(name, is_dir),
        is_dir,
    }
}

/// The table row that shows an entry.
pub open spec fn row_of(e: EntryView) -> TableRowView {
    TableRowView {
        key: e.path,
        name: e.name,
        modified: e.modified,
        kind: e.kind,
        size: e.size_display,
        icon: e.icon,
    }
}

impl FileEntry {
    /// An entry for the item at `path` called `name`.
    pub fn new(
        path: String,
        name: String,
        is_dir: bool,
        size: u64,
        modified_ticks: u64,
        modified: String,
    ) -> (r: FileEntry)
        ensures
            r@ == entry_from(path@, name@, is_dir, size, modified_ticks, modified@),
    {
        let kind = file_kind(name.as_str(), is_dir);
        let icon = file_icon(name.as_str(), is_dir);
        let size_display = if is_dir {
            String::new()
        } else {
            format_size(size)
        };
        FileEntry {
            path,
            name,
            modified_ticks,
            modified,
            kind,
            size: if is_dir { 0 } else { size },
            size_display,
            icon,
            is_dir,
        }
    }

    pub fn duplicate(&self) -> (r: FileEntry)
        ensures
            r@ == self@,
    {
        FileEntry {
            path: copy_string(&self.path),
            name: copy_string(&self.name),
            modified_ticks: self.modified_ticks,
            modified: copy_string(&self.modified),
            kind: copy_string(&self.kind),
            size: self.size,
            size_display: copy_string(&self.size_display),
            icon: copy_string(&self.icon),
            is_dir: self.is_dir,
        }
    }

    /// The table row that shows this entry.
    pub fn table_row(&self) -> (r: TableRow)
        ensures
            r@ == row_of(self@),
    {
        TableRow::new(
            path_key(self.path.as_str()),
            copy_string(&self.name),
            copy_string(&self.modified),
            copy_string(&self.kind),
            copy_string(&self.size_display),
            copy_string(&self.icon),
        )
    }

    pub fn path(&self) -> (r: &String)
        ensures
            r@ == self@.path,
    {
        &self.path
    }

    pub fn name(&self) -> (r: &String)
        ensures
            r@ == self@.name,
    {
        &self.name
    }

    pub fn is_dir(&self) -> (r: bool)
        ensures
            r == self@.is_dir,
    {
        self.is_dir
    }

    pub fn modified_ticks(&self) -> (r: u64)
        ensures
            r == self@.modified_ticks,
    {
        self.modified_ticks
    }

    pub fn kind(&self) -> (r: &String)
        ensures
            r@ == self@.kind,
    {
        &self.kind
    }

    pub fn size(&self) -> (r: u64)
        ensures
            r == self@.size,
    {
        self.size
    }
}


/// Characters after the last dot do not move it.
proof fn lemma_last_dot_after(s: Seq<char>, tail: Seq<char>)
    requires
        forall|i: int| 0 <= i < tail.len() ==> tail[i] != '.',
    ensures
        last_dot(s + tail) == last_dot(s),
    decreases tail.len(),
{
    if tail.len() > 0 {
        assert((s + tail).drop_last() =~= s + tail.drop_last());
        assert((s + tail).last() == tail.last());
        lemma_last_dot_after(s, tail.drop_last());
    } else {
        assert(s + tail =~= s);
    }
}

/// The extension of a name is what follows its last dot, when something
/// comes before that dot; a name without a dot has none.
pub proof fn lemma_extension_after_last_dot(stem: Seq<char>, ext: Seq<char>)
    requires
        forall|i: int| 0 <= i < ext.len() ==> ext[i] != '.',
    ensures
        stem.len() > 0 ==> extension(stem + seq!['.'] + ext) == ext,
        extension(ext) == Seq::<char>::empty(),
{
    lemma_last_dot_after(stem + seq!['.'], ext);
    assert(last_dot(stem + seq!['.']) == stem.len()) by {
        assert((stem + seq!['.']).last() == '.');
    }
    assert((stem + seq!['.'] + ext).skip(stem.len() + 1int) =~= ext);
    lemma_last_dot_after(Seq::<char>::empty(), ext);
    assert(Seq::<char>::empty() + ext =~= ext);
}

proof fn lemma_ext_exe()
    ensures
        kind_for("exe"@) == "Application"@,
        icon_for("exe"@) == "▣"@,
{
    reveal_strlit("exe");
    reveal_strlit("dll");
    reveal_strlit("rs");
    reveal_strlit("toml");
    reveal_strlit("md");
    reveal_strlit("txt");
    reveal_strlit("png");
    reveal_strlit("jpg");
    reveal_strlit("jpeg");
    reveal_strlit("gif");
    reveal_strlit("webp");
    reveal_strlit("zip");
    reveal_strlit("7z");
    reveal_strlit("rar");
    reveal_strlit("json");
    assert("exe"@ != "dll"@) by { assert("exe"@[0] != "dll"@[0]); }
    assert("exe"@ != "rs"@) by { assert("exe"@.len() != "rs"@.len()); }
    assert("exe"@ != "toml"@) by { assert("exe"@.len() != "toml"@.len()); }
    assert("exe"@ != "md"@) by { assert("exe"@.len() != "md"@.len()); }
    assert("exe"@ != "txt"@) by { assert("exe"@[0] != "txt"@[0]); }
    assert("exe"@ != "png"@) by { assert("exe"@[0] != "png"@[0]); }
    assert("exe"@ != "jpg"@) by { assert("exe"@[0] != "jpg"@[0]); }
    assert("exe"@ != "jpeg"@) by { assert("exe"@.len() != "jpeg"@.len()); }
    assert("exe"@ != "gif"@) by { assert("exe"@[0] != "gif"@[0]); }
    assert("exe"@ != "webp"@) by { assert("exe"@.len() != "webp"@.len()); }
    assert("exe"@ != "zip"@) by { assert("exe"@[0] != "zip"@[0]); }
    assert("exe"@ != "7z"@) by { assert("exe"@.len() != "7z"@.len()); }
    assert("exe"@ != "rar"@) by { assert("exe"@[0] != "rar"@[0]); }
    assert("exe"@ != "json"@) by { assert("exe"@.len() != "json"@.len()); }
}

proof fn lemma_ext_dll()
    ensures
        kind_for("dll"@) == "Application extension"@,
        icon_for("dll"@) == "📄"@,
{
    reveal_strlit("exe");
    reveal_strlit("dll");
    reveal_strlit("rs");
    reveal_strlit("toml");
    reveal_strlit("md");
    reveal_strlit("txt");
    reveal_strlit("png");
    reveal_strlit("jpg");
    reveal_strlit("jpeg");
    reveal_strlit("gif");
    reveal_strlit("webp");
    reveal_strlit("zip");
    reveal_strlit("7z");
    reveal_strlit("rar");
    reveal_strlit("json");
    assert("dll"@ != "exe"@) by { assert("dll"@[0] != "exe"@[0]); }
    assert("dll"@ != "rs"@) by { assert("dll"@.len() != "rs"@.len()); }
    assert("dll"@ != "toml"@) by { assert("dll"@.len() != "toml"@.len()); }
    assert("dll"@ != "md"@) by { assert("dll"@.len() != "md"@.len()); }
    assert("dll"@ != "txt"@) by { assert("dll"@[0] != "txt"@[0]); }
    assert("dll"@ != "png"@) by { assert("dll"@[0] != "png"@[0]); }
    assert("dll"@ != "jpg"@) by { assert("dll"@[0] != "jpg"@[0]); }
    assert("dll"@ != "jpeg"@) by { assert("dll"@.len() != "jpeg"@.len()); }
    assert("dll"@ != "gif"@) by { assert("dll"@[0] != "gif"@[0]); }
    assert("dll"@ != "webp"@) by { assert("dll"@.len() != "webp"@.len()); }
    assert("dll"@ != "zip"@) by { assert("dll"@[0] != "zip"@[0]); }
    assert("dll"@ != "7z"@) by { assert("dll"@.len() != "7z"@.len()); }
    assert("dll"@ != "rar"@) by { assert("dll"@[0] != "rar"@[0]); }
    assert("dll"@ != "json"@) by { assert("dll"@.len() != "json"@.len()); }
}

proof fn lemma_ext_rs()
    ensures
        kind_for("rs"@) == "Rust source file"@,
        icon_for("rs"@) == "📄"@,
{
    reveal_strlit("exe");
    reveal_strlit("dll");
    reveal_strlit("rs");
    reveal_strlit("toml");
    reveal_strlit("md");
    reveal_strlit("txt");
    reveal_strlit("png");
    reveal_strlit("jpg");
    reveal_strlit("jpeg");
    reveal_strlit("gif");
    reveal_strlit("webp");
    reveal_strlit("zip");
    reveal_strlit("7z");
    reveal_strlit("rar");
    reveal_strlit("json");
    assert("rs"@ != "exe"@) by { assert("rs"@.len() != "exe"@.len()); }
    assert("rs"@ != "dll"@) by { assert("rs"@.len() != "dll"@.len()); }
    assert("rs"@ != "toml"@) by { assert("rs"@.len() != "toml"@.len()); }
    assert("rs"@ != "md"@) by { assert("rs"@[0] != "md"@[0]); }
    assert("rs"@ != "txt"@) by { assert("rs"@.len() != "txt"@.len()); }
    assert("rs"@ != "png"@) by { assert("rs"@.len() != "png"@.len()); }
    assert("rs"@ != "jpg"@) by { assert("rs"@.len() != "jpg"@.len()); }
    assert("rs"@ != "jpeg"@) by { assert("rs"@.len() != "jpeg"@.len()); }
    assert("rs"@ != "gif"@) by { assert("rs"@.len() != "gif"@.len()); }
    assert("rs"@ != "webp"@) by { assert("rs"@.len() != "webp"@.len()); }
    assert("rs"@ != "zip"@) by { assert("rs"@.len() != "zip"@.len()); }
    assert("rs"@ != "7z"@) by { assert("rs"@[0] != "7z"@[0]); }
    assert("rs"@ != "rar"@) by { assert("rs"@.len() != "rar"@.len()); }
    assert("rs"@ != "json"@) by { assert("rs"@.len() != "json"@.len()); }
}

proof fn lemma_ext_toml()
    ensures
        kind_for("toml"@) == "TOML file"@,
        icon_for("toml"@) == "📄"@,
{
    reveal_strlit("exe");
    reveal_strlit("dll");
    reveal_strlit("rs");
    reveal_strlit("toml");
    reveal_strlit("md");
    reveal_strlit("txt");
    reveal_strlit("png");
    reveal_strlit("jpg");
    reveal_strlit("jpeg");
    reveal_strlit("gif");
    reveal_strlit("webp");
    reveal_strlit("zip");
    reveal_strlit("7z");
    reveal_strlit("rar");
    reveal_strlit("json");
    assert("toml"@ != "exe"@) by { assert("toml"@.len() != "exe"@.len()); }
    assert("toml"@ != "dll"@) by { assert("toml"@.len() != "dll"@.len()); }
    assert("toml"@ != "rs"@) by { assert("toml"@.len() != "rs"@.len()); }
    assert("toml"@ != "md"@) by { assert("toml"@.len() != "md"@.len()); }
    assert("toml"@ != "txt"@) by { assert("toml"@.len() != "txt"@.len()); }
    assert("toml"@ != "png"@) by { assert("toml"@.len() != "png"@.len()); }
    assert("toml"@ != "jpg"@) by { assert("toml"@.len() != "jpg"@.len()); }
    assert("toml"@ != "jpeg"@) by { assert("toml"@[0] != "jpeg"@[0]); }
    assert("toml"@ != "gif"@) by { assert("toml"@.len() != "gif"@.len()); }
    assert("toml"@ != "webp"@) by { assert("toml"@[0] != "webp"@[0]); }
    assert("toml"@ != "zip"@) by { assert("toml"@.len() != "zip"@.len()); }
    assert("toml"@ != "7z"@) by { assert("toml"@.len() != "7z"@.len()); }
    assert("toml"@ != "rar"@) by { assert("toml"@.len() != "rar"@.len()); }
    assert("toml"@ != "json"@) by { assert("toml"@[0] != "json"@[0]); }
}

proof fn lemma_ext_md()
    ensures
        kind_for("md"@) == "Markdown file"@,
        icon_for("md"@) == "📄"@,
{
    reveal_strlit("exe");
    reveal_strlit("dll");
    reveal_strlit("rs");
    reveal_strlit("toml");
    reveal_strlit("md");
    reveal_strlit("txt");
    reveal_strlit("png");
    reveal_strlit("jpg");
    reveal_strlit("jpeg");
    reveal_strlit("gif");
    reveal_strlit("webp");
    reveal_strlit("zip");
    reveal_strlit("7z");
    reveal_strlit("rar");
    reveal_strlit("json");
    assert("md"@ != "exe"@) by { assert("md"@.len() != "exe"@.len()); }
    assert("md"@ != "dll"@) by { assert("md"@.len() != "dll"@.len()); }
    assert("md"@ != "rs"@) by { assert("md"@[0] != "rs"@[0]); }
    assert("md"@ != "toml"@) by { assert("md"@.len() != "toml"@.len()); }
    assert("md"@ != "txt"@) by { assert("md"@.len() != "txt"@.len()); }
    assert("md"@ != "png"@) by { assert("md"@.len() != "png"@.len()); }
    assert("md"@ != "jpg"@) by { assert("md"@.len() != "jpg"@.len()); }
    assert("md"@ != "jpeg"@) by { assert("md"@.len() != "jpeg"@.len()); }
    assert("md"@ != "gif"@) by { assert("md"@.len() != "gif"@.len()); }
    assert("md"@ != "webp"@) by { assert("md"@.len() != "webp"@.len()); }
    assert("md"@ != "zip"@) by { assert("md"@.len() != "zip"@.len()); }
    assert("md"@ != "7z"@) by { assert("md"@[0] != "7z"@[0]); }
    assert("md"@ != "rar"@) by { assert("md"@.len() != "rar"@.len()); }
    assert("md"@ != "json"@) by { assert("md"@.len() != "json"@.len()); }
}

proof fn lemma_ext_txt()
    ensures
        kind_for("txt"@) == "Text document"@,
        icon_for("txt"@) == "📄"@,
{
    reveal_strlit("exe");
    reveal_strlit("dll");
    reveal_strlit("rs");
    reveal_strlit("toml");
    reveal_strlit("md");
    reveal_strlit("txt");
    reveal_strlit("png");
    reveal_strlit("jpg");
    reveal_strlit("jpeg");
    reveal_strlit("gif");
    reveal_strlit("webp");
    reveal_strlit("zip");
    reveal_strlit("7z");
    reveal_strlit("rar");
    reveal_strlit("json");
    assert("txt"@ != "exe"@) by { assert("txt"@[0] != "exe"@[0]); }
    assert("txt"@ != "dll"@) by { assert("txt"@[0] != "dll"@[0]); }
    assert("txt"@ != "rs"@) by { assert("txt"@.len() != "rs"@.len()); }
    assert("txt"@ != "toml"@) by { assert("txt"@.len() != "toml"@.len()); }
    assert("txt"@ != "md"@) by { assert("txt"@.len() != "md"@.len()); }
    assert("txt"@ != "png"@) by { assert("txt"@[0] != "png"@[0]); }
    assert("txt"@ != "jpg"@) by { assert("txt"@[0] != "jpg"@[0]); }
    assert("txt"@ != "jpeg"@) by { assert("txt"@.len() != "jpeg"@.len()); }
    assert("txt"@ != "gif"@) by { assert("txt"@[0] != "gif"@[0]); }
    assert("txt"@ != "webp"@) by { assert("txt"@.len() != "webp"@.len()); }
    assert("txt"@ != "zip"@) by { assert("txt"@[0] != "zip"@[0]); }
    assert("txt"@ != "7z"@) by { assert("txt"@.len() != "7z"@.len()); }
    assert("txt"@ != "rar"@) by { assert("txt"@[0] != "rar"@[0]); }
    assert("txt"@ != "json"@) by { assert("txt"@.len() != "json"@.len()); }
}

proof fn lemma_ext_png()
    ensures
        kind_for("png"@) == "Image file"@,
        icon_for("png"@) == "🖼"@,
{
    reveal_strlit("exe");
    reveal_strlit("dll");
    reveal_strlit("rs");
    reveal_strlit("toml");
    reveal_strlit("md");
    reveal_strlit("txt");
    reveal_strlit("png");
    reveal_strlit("jpg");
    reveal_strlit("jpeg");
    reveal_strlit("gif");
    reveal_strlit("webp");
    reveal_strlit("zip");
    reveal_strlit("7z");
    reveal_strlit("rar");
    reveal_strlit("json");
    assert("png"@ != "exe"@) by { assert("png"@[0] != "exe"@[0]); }
    assert("png"@ != "dll"@) by { assert("png"@[0] != "dll"@[0]); }
    assert("png"@ != "rs"@) by { assert("png"@.len() != "rs"@.len()); }
    assert("png"@ != "toml"@) by { assert("png"@.len() != "toml"@.len()); }
    assert("png"@ != "md"@) by { assert("png"@.len() != "md"@.len()); }
    assert("png"@ != "txt"@) by { assert("png"@[0] != "txt"@[0]); }
    assert("png"@ != "jpg"@) by { assert("png"@[0] != "jpg"@[0]); }
    assert("png"@ != "jpeg"@) by { assert("png"@.len() != "jpeg"@.len()); }
    assert("png"@ != "gif"@) by { assert("png"@[0] != "gif"@[0]); }
    assert("png"@ != "webp"@) by { assert("png"@.len() != "webp"@.len()); }
    assert("png"@ != "zip"@) by { assert("png"@[0] != "zip"@[0]); }
    assert("png"@ != "7z"@) by { assert("png"@.len() != "7z"@.len()); }
    assert("png"@ != "rar"@) by { assert("png"@[0] != "rar"@[0]); }
    assert("png"@ != "json"@) by { assert("png"@.len() != "json"@.len()); }
}

proof fn lemma_ext_jpg()
    ensures
        kind_for("jpg"@) == "Image file"@,
        icon_for("jpg"@) == "🖼"@,
{
    reveal_strlit("exe");
    reveal_strlit("dll");
    reveal_strlit("rs");
    reveal_strlit("toml");
    reveal_strlit("md");
    reveal_strlit("txt");
    reveal_strlit("png");
    reveal_strlit("jpg");
    reveal_strlit("jpeg");
    reveal_strlit("gif");
    reveal_strlit("webp");
    reveal_strlit("zip");
    reveal_strlit("7z");
    reveal_strlit("rar");
    reveal_strlit("json");
    assert("jpg"@ != "exe"@) by { assert("jpg"@[0] != "exe"@[0]); }
    assert("jpg"@ != "dll"@) by { assert("jpg"@[0] != "dll"@[0]); }
    assert("jpg"@ != "rs"@) by { assert("jpg"@.len() != "rs"@.len()); }
    assert("jpg"@ != "toml"@) by { assert("jpg"@.len() != "toml"@.len()); }
    assert("jpg"@ != "md"@) by { assert("jpg"@.len() != "md"@.len()); }
    assert("jpg"@ != "txt"@) by { assert("jpg"@[0] != "txt"@[0]); }
    assert("jpg"@ != "png"@) by { assert("jpg"@[0] != "png"@[0]); }
    assert("jpg"@ != "jpeg"@) by { assert("jpg"@.len() != "jpeg"@.len()); }
    assert("jpg"@ != "gif"@) by { assert("jpg"@[0] != "gif"@[0]); }
    assert("jpg"@ != "webp"@) by { assert("jpg"@.len() != "webp"@.len()); }
    assert("jpg"@ != "zip"@) by { assert("jpg"@[0] != "zip"@[0]); }
    assert("jpg"@ != "7z"@) by { assert("jpg"@.len() != "7z"@.len()); }
    assert("jpg"@ != "rar"@) by { assert("jpg"@[0] != "rar"@[0]); }
    assert("jpg"@ != "json"@) by { assert("jpg"@.len() != "json"@.len()); }
}

proof fn lemma_ext_jpeg()
    ensures
        kind_for("jpeg"@) == "Image file"@,
        icon_for("jpeg"@) == "🖼"@,
{
    reveal_strlit("exe");
    reveal_strlit("dll");
    reveal_strlit("rs");
    reveal_strlit("toml");
    reveal_strlit("md");
    reveal_strlit("txt");
    reveal_strlit("png");
    reveal_strlit("jpg");
    reveal_strlit("jpeg");
    reveal_strlit("gif");
    reveal_strlit("webp");
    reveal_strlit("zip");
    reveal_strlit("7z");
    reveal_strlit("rar");
    reveal_strlit("json");
    assert("jpeg"@ != "exe"@) by { assert("jpeg"@.len() != "exe"@.len()); }
    assert("jpeg"@ != "dll"@) by { assert("jpeg"@.len() != "dll"@.len()); }
    assert("jpeg"@ != "rs"@) by { assert("jpeg"@.len() != "rs"@.len()); }
    assert("jpeg"@ != "toml"@) by { assert("jpeg"@[0] != "toml"@[0]); }
    assert("jpeg"@ != "md"@) by { assert("jpeg"@.len() != "md"@.len()); }
    assert("jpeg"@ != "txt"@) by { assert("jpeg"@.len() != "txt"@.len()); }
    assert("jpeg"@ != "png"@) by { assert("jpeg"@.len() != "png"@.len()); }
    assert("jpeg"@ != "jpg"@) by { assert("jpeg"@.len() != "jpg"@.len()); }
    assert("jpeg"@ != "gif"@) by { assert("jpeg"@.len() != "gif"@.len()); }
    assert("jpeg"@ != "webp"@) by { assert("jpeg"@[0] != "webp"@[0]); }
    assert("jpeg"@ != "zip"@) by { assert("jpeg"@.len() != "zip"@.len()); }
    assert("jpeg"@ != "7z"@) by { assert("jpeg"@.len() != "7z"@.len()); }
    assert("jpeg"@ != "rar"@) by { assert("jpeg"@.len() != "rar"@.len()); }
    assert("jpeg"@ != "json"@) by { assert("jpeg"@[1] != "json"@[1]); }
}

proof fn lemma_ext_gif()
    ensures
        kind_for("gif"@) == "Image file"@,
        icon_for("gif"@) == "🖼"@,
{
    reveal_strlit("exe");
    reveal_strlit("dll");
    reveal_strlit("rs");
    reveal_strlit("toml");
    reveal_strlit("md");
    reveal_strlit("txt");
    reveal_strlit("png");
    reveal_strlit("jpg");
    reveal_strlit("jpeg");
    reveal_strlit("gif");
    reveal_strlit("webp");
    reveal_strlit("zip");
    reveal_strlit("7z");
    reveal_strlit("rar");
    reveal_strlit("json");
    assert("gif"@ != "exe"@) by { assert("gif"@[0] != "exe"@[0]); }
    assert("gif"@ != "dll"@) by { assert("gif"@[0] != "dll"@[0]); }
    assert("gif"@ != "rs"@) by { assert("gif"@.len() != "rs"@.len()); }
    assert("gif"@ != "toml"@) by { assert("gif"@.len() != "toml"@.len()); }
    assert("gif"@ != "md"@) by { assert("gif"@.len() != "md"@.len()); }
    assert("gif"@ != "txt"@) by { assert("gif"@[0] != "txt"@[0]); }
    assert("gif"@ != "png"@) by { assert("gif"@[0] != "png"@[0]); }
    assert("gif"@ != "jpg"@) by { assert("gif"@[0] != "jpg"@[0]); }
    assert("gif"@ != "jpeg"@) by { assert("gif"@.len() != "jpeg"@.len()); }
    assert("gif"@ != "webp"@) by { assert("gif"@.len() != "webp"@.len()); }
    assert("gif"@ != "zip"@) by { assert("gif"@[0] != "zip"@[0]); }
    assert("gif"@ != "7z"@) by { assert("gif"@.len() != "7z"@.len()); }
    assert("gif"@ != "rar"@) by { assert("gif"@[0] != "rar"@[0]); }
    assert("gif"@ != "json"@) by { assert("gif"@.len() != "json"@.len()); }
}

proof fn lemma_ext_webp()
    ensures
        kind_for("webp"@) == "Image file"@,
        icon_for("webp"@) == "🖼"@,
{
    reveal_strlit("exe");
    reveal_strlit("dll");
    reveal_strlit("rs");
    reveal_strlit("toml");
    reveal_strlit("md");
    reveal_strlit("txt");
    reveal_strlit("png");
    reveal_strlit("jpg");
    reveal_strlit("jpeg");
    reveal_strlit("gif");
    reveal_strlit("webp");
    reveal_strlit("zip");
    reveal_strlit("7z");
    reveal_strlit("rar");
    reveal_strlit("json");
    assert("webp"@ != "exe"@) by { assert("webp"@.len() != "exe"@.len()); }
    assert("webp"@ != "dll"@) by { assert("webp"@.len() != "dll"@.len()); }
    assert("webp"@ != "rs"@) by { assert("webp"@.len() != "rs"@.len()); }
    assert("webp"@ != "toml"@) by { assert("webp"@[0] != "toml"@[0]); }
    assert("webp"@ != "md"@) by { assert("webp"@.len() != "md"@.len()); }
    assert("webp"@ != "txt"@) by { assert("webp"@.len() != "txt"@.len()); }
    assert("webp"@ != "png"@) by { assert("webp"@.len() != "png"@.len()); }
    assert("webp"@ != "jpg"@) by { assert("webp"@.len() != "jpg"@.len()); }
    assert("webp"@ != "jpeg"@) by { assert("webp"@[0] != "jpeg"@[0]); }
    assert("webp"@ != "gif"@) by { assert("webp"@.len() != "gif"@.len()); }
    assert("webp"@ != "zip"@) by { assert("webp"@.len() != "zip"@.len()); }
    assert("webp"@ != "7z"@) by { assert("webp"@.len() != "7z"@.len()); }
    assert("webp"@ != "rar"@) by { assert("webp"@.len() != "rar"@.len()); }
    assert("webp"@ != "json"@) by { assert("webp"@[0] != "json"@[0]); }
}

proof fn lemma_ext_zip()
    ensures
        kind_for("zip"@) == "Compressed archive"@,
        icon_for("zip"@) == "🗜"@,
{
    reveal_strlit("exe");
    reveal_strlit("dll");
    reveal_strlit("rs");
    reveal_strlit("toml");
    reveal_strlit("md");
    reveal_strlit("txt");
    reveal_strlit("png");
    reveal_strlit("jpg");
    reveal_strlit("jpeg");
    reveal_strlit("gif");
    reveal_strlit("webp");
    reveal_strlit("zip");
    reveal_strlit("7z");
    reveal_strlit("rar");
    reveal_strlit("json");
    assert("zip"@ != "exe"@) by { assert("zip"@[0] != "exe"@[0]); }
    assert("zip"@ != "dll"@) by { assert("zip"@[0] != "dll"@[0]); }
    assert("zip"@ != "rs"@) by { assert("zip"@.len() != "rs"@.len()); }
    assert("zip"@ != "toml"@) by { assert("zip"@.len() != "toml"@.len()); }
    assert("zip"@ != "md"@) by { assert("zip"@.len() != "md"@.len()); }
    assert("zip"@ != "txt"@) by { assert("zip"@[0] != "txt"@[0]); }
    assert("zip"@ != "png"@) by { assert("zip"@[0] != "png"@[0]); }
    assert("zip"@ != "jpg"@) by { assert("zip"@[0] != "jpg"@[0]); }
    assert("zip"@ != "jpeg"@) by { assert("zip"@.len() != "jpeg"@.len()); }
    assert("zip"@ != "gif"@) by { assert("zip"@[0] != "gif"@[0]); }
    assert("zip"@ != "webp"@) by { assert("zip"@.len() != "webp"@.len()); }
    assert("zip"@ != "7z"@) by { assert("zip"@.len() != "7z"@.len()); }
    assert("zip"@ != "rar"@) by { assert("zip"@[0] != "rar"@[0]); }
    assert("zip"@ != "json"@) by { assert("zip"@.len() != "json"@.len()); }
}

proof fn lemma_ext_n7z()
    ensures
        kind_for("7z"@) == "Compressed archive"@,
        icon_for("7z"@) == "🗜"@,
{
    reveal_strlit("exe");
    reveal_strlit("dll");
    reveal_strlit("rs");
    reveal_strlit("toml");
    reveal_strlit("md");
    reveal_strlit("txt");
    reveal_strlit("png");
    reveal_strlit("jpg");
    reveal_strlit("jpeg");
    reveal_strlit("gif");
    reveal_strlit("webp");
    reveal_strlit("zip");
    reveal_strlit("7z");
    reveal_strlit("rar");
    reveal_strlit("json");
    assert("7z"@ != "exe"@) by { assert("7z"@.len() != "exe"@.len()); }
    assert("7z"@ != "dll"@) by { assert("7z"@.len() != "dll"@.len()); }
    assert("7z"@ != "rs"@) by { assert("7z"@[0] != "rs"@[0]); }
    assert("7z"@ != "toml"@) by { assert("7z"@.len() != "toml"@.len()); }
    assert("7z"@ != "md"@) by { assert("7z"@[0] != "md"@[0]); }
    assert("7z"@ != "txt"@) by { assert("7z"@.len() != "txt"@.len()); }
    assert("7z"@ != "png"@) by { assert("7z"@.len() != "png"@.len()); }
    assert("7z"@ != "jpg"@) by { assert("7z"@.len() != "jpg"@.len()); }
    assert("7z"@ != "jpeg"@) by { assert("7z"@.len() != "jpeg"@.len()); }
    assert("7z"@ != "gif"@) by { assert("7z"@.len() != "gif"@.len()); }
    assert("7z"@ != "webp"@) by { assert("7z"@.len() != "webp"@.len()); }
    assert("7z"@ != "zip"@) by { assert("7z"@.len() != "zip"@.len()); }
    assert("7z"@ != "rar"@) by { assert("7z"@.len() != "rar"@.len()); }
    assert("7z"@ != "json"@) by { assert("7z"@.len() != "json"@.len()); }
}

proof fn lemma_ext_rar()
    ensures
        kind_for("rar"@) == "Compressed archive"@,
        icon_for("rar"@) == "🗜"@,
{
    reveal_strlit("exe");
    reveal_strlit("dll");
    reveal_strlit("rs");
    reveal_strlit("toml");
    reveal_strlit("md");
    reveal_strlit("txt");
    reveal_strlit("png");
    reveal_strlit("jpg");
    reveal_strlit("jpeg");
    reveal_strlit("gif");
    reveal_strlit("webp");
    reveal_strlit("zip");
    reveal_strlit("7z");
    reveal_strlit("rar");
    reveal_strlit("json");
    assert("rar"@ != "exe"@) by { assert("rar"@[0] != "exe"@[0]); }
    assert("rar"@ != "dll"@) by { assert("rar"@[0] != "dll"@[0]); }
    assert("rar"@ != "rs"@) by { assert("rar"@.len() != "rs"@.len()); }
    assert("rar"@ != "toml"@) by { assert("rar"@.len() != "toml"@.len()); }
    assert("rar"@ != "md"@) by { assert("rar"@.len() != "md"@.len()); }
    assert("rar"@ != "txt"@) by { assert("rar"@[0] != "txt"@[0]); }
    assert("rar"@ != "png"@) by { assert("rar"@[0] != "png"@[0]); }
    assert("rar"@ != "jpg"@) by { assert("rar"@[0] != "jpg"@[0]); }
    assert("rar"@ != "jpeg"@) by { assert("rar"@.len() != "jpeg"@.len()); }
    assert("rar"@ != "gif"@) by { assert("rar"@[0] != "gif"@[0]); }
    assert("rar"@ != "webp"@) by { assert("rar"@.len() != "webp"@.len()); }
    assert("rar"@ != "zip"@) by { assert("rar"@[0] != "zip"@[0]); }
    assert("rar"@ != "7z"@) by { assert("rar"@.len() != "7z"@.len()); }
    assert("rar"@ != "json"@) by { assert("rar"@.len() != "json"@.len()); }
}

proof fn lemma_ext_json()
    ensures
        kind_for("json"@) == "JSON file"@,
        icon_for("json"@) == "📄"@,
{
    reveal_strlit("exe");
    reveal_strlit("dll");
    reveal_strlit("rs");
    reveal_strlit("toml");
    reveal_strlit("md");
    reveal_strlit("txt");
    reveal_strlit("png");
    reveal_strlit("jpg");
    reveal_strlit("jpeg");
    reveal_strlit("gif");
    reveal_strlit("webp");
    reveal_strlit("zip");
    reveal_strlit("7z");
    reveal_strlit("rar");
    reveal_strlit("json");
    assert("json"@ != "exe"@) by { assert("json"@.len() != "exe"@.len()); }
    assert("json"@ != "dll"@) by { assert("json"@.len() != "dll"@.len()); }
    assert("json"@ != "rs"@) by { assert("json"@.len() != "rs"@.len()); }
    assert("json"@ != "toml"@) by { assert("json"@[0] != "toml"@[0]); }
    assert("json"@ != "md"@) by { assert("json"@.len() != "md"@.len()); }
    assert("json"@ != "txt"@) by { assert("json"@.len() != "txt"@.len()); }
    assert("json"@ != "png"@) by { assert("json"@.len() != "png"@.len()); }
    assert("json"@ != "jpg"@) by { assert("json"@.len() != "jpg"@.len()); }
    assert("json"@ != "jpeg"@) by { assert("json"@[1] != "jpeg"@[1]); }
    assert("json"@ != "gif"@) by { assert("json"@.len() != "gif"@.len()); }
    assert("json"@ != "webp"@) by { assert("json"@[0] != "webp"@[0]); }
    assert("json"@ != "zip"@) by { assert("json"@.len() != "zip"@.len()); }
    assert("json"@ != "7z"@) by { assert("json"@.len() != "7z"@.len()); }
    assert("json"@ != "rar"@) by { assert("json"@.len() != "rar"@.len()); }
}

/// The type and icon for each known lower-case extension.
proof fn lemma_extension_table(e: Seq<char>)
    ensures
        e == "exe"@ ==> kind_for(e) == "Application"@ && icon_for(e) == "▣"@,
        e == "dll"@ ==> kind_for(e) == "Application extension"@ && icon_for(e) == "📄"@,
        e == "rs"@ ==> kind_for(e) == "Rust source file"@ && icon_for(e) == "📄"@,
        e == "toml"@ ==> kind_for(e) == "TOML file"@ && icon_for(e) == "📄"@,
        e == "md"@ ==> kind_for(e) == "Markdown file"@ && icon_for(e) == "📄"@,
        e == "txt"@ ==> kind_for(e) == "Text document"@ && icon_for(e) == "📄"@,
        e == "png"@ ==> kind_for(e) == "Image file"@ && icon_for(e) == "🖼"@,
        e == "jpg"@ ==> kind_for(e) == "Image file"@ && icon_for(e) == "🖼"@,
        e == "jpeg"@ ==> kind_for(e) == "Image file"@ && icon_for(e) == "🖼"@,
        e == "gif"@ ==> kind_for(e) == "Image file"@ && icon_for(e) == "🖼"@,
        e == "webp"@ ==> kind_for(e) == "Image file"@ && icon_for(e) == "🖼"@,
        e == "zip"@ ==> kind_for(e) == "Compressed archive"@ && icon_for(e) == "🗜"@,
        e == "7z"@ ==> kind_for(e) == "Compressed archive"@ && icon_for(e) == "🗜"@,
        e == "rar"@ ==> kind_for(e) == "Compressed archive"@ && icon_for(e) == "🗜"@,
        e == "json"@ ==> kind_for(e) == "JSON file"@ && icon_for(e) == "📄"@,
        !(e == "exe"@ || e == "dll"@ || e == "rs"@ || e == "toml"@ || e == "md"@ || e == "txt"@ || e == "png"@ || e == "jpg"@ || e == "jpeg"@ || e == "gif"@ || e == "webp"@ || e == "zip"@ || e == "7z"@ || e == "rar"@ || e == "json"@) ==> kind_for(e) == "File"@ && icon_for(e) == "📄"@,
{
    lemma_ext_exe();
    lemma_ext_dll();
    lemma_ext_rs();
    lemma_ext_toml();
    lemma_ext_md();
    lemma_ext_txt();
    lemma_ext_png();
    lemma_ext_jpg();
    lemma_ext_jpeg();
    lemma_ext_gif();
    lemma_ext_webp();
    lemma_ext_zip();
    lemma_ext_n7z();
    lemma_ext_rar();
    lemma_ext_json();
}

/// The type and icon shown for a file follow its extension in any case:
/// `png`, `jpg`, `jpeg`, `gif` and `webp` are images, `zip`, `7z` and
/// `rar` archives, `exe` applications and so on; any other extension,
/// or none, is a plain file. Folders are folders whatever their name.
pub proof fn lemma_file_types(stem: Seq<char>, ext: Seq<char>, any_name: Seq<char>)
    requires
        stem.len() > 0,
        forall|i: int| 0 <= i < ext.len() ==> ext[i] != '.',
    ensures
        ({
            let name = stem + seq!['.'] + ext;
            let e = ascii_lower(ext);
            &&& e == "exe"@ ==> file_kind_text(name, false) == "Application"@ && file_icon_text(name, false) == "▣"@
            &&& e == "dll"@ ==> file_kind_text(name, false) == "Application extension"@ && file_icon_text(name, false) == "📄"@
            &&& e == "rs"@ ==> file_kind_text(name, false) == "Rust source file"@ && file_icon_text(name, false) == "📄"@
            &&& e == "toml"@ ==> file_kind_text(name, false) == "TOML file"@ && file_icon_text(name, false) == "📄"@
            &&& e == "md"@ ==> file_kind_text(name, false) == "Markdown file"@ && file_icon_text(name, false) == "📄"@
            &&& e == "txt"@ ==> file_kind_text(name, false) == "Text document"@ && file_icon_text(name, false) == "📄"@
            &&& e == "png"@ ==> file_kind_text(name, false) == "Image file"@ && file_icon_text(name, false) == "🖼"@
            &&& e == "jpg"@ ==> file_kind_text(name, false) == "Image file"@ && file_icon_text(name, false) == "🖼"@
            &&& e == "jpeg"@ ==> file_kind_text(name, false) == "Image file"@ && file_icon_text(name, false) == "🖼"@
            &&& e == "gif"@ ==> file_kind_text(name, false) == "Image file"@ && file_icon_text(name, false) == "🖼"@
            &&& e == "webp"@ ==> file_kind_text(name, false) == "Image file"@ && file_icon_text(name, false) == "🖼"@
            &&& e == "zip"@ ==> file_kind_text(name, false) == "Compressed archive"@ && file_icon_text(name, false) == "🗜"@
            &&& e == "7z"@ ==> file_kind_text(name, false) == "Compressed archive"@ && file_icon_text(name, false) == "🗜"@
            &&& e == "rar"@ ==> file_kind_text(name, false) == "Compressed archive"@ && file_icon_text(name, false) == "🗜"@
            &&& e == "json"@ ==> file_kind_text(name, false) == "JSON file"@ && file_icon_text(name, false) == "📄"@
            &&& !(e == "exe"@ || e == "dll"@ || e == "rs"@ || e == "toml"@ || e == "md"@ || e == "txt"@ || e == "png"@ || e == "jpg"@ || e == "jpeg"@ || e == "gif"@ || e == "webp"@ || e == "zip"@ || e == "7z"@ || e == "rar"@ || e == "json"@) ==> file_kind_text(name, false) == "File"@ && file_icon_text(name, false) == "📄"@
        }),
        file_kind_text(ext, false) == "File"@,
        file_icon_text(ext, false) == "📄"@,
        file_kind_text(any_name, true) == "File folder"@,
        file_icon_text(any_name, true) == "📁"@,
{
    lemma_extension_after_last_dot(stem, ext);
    let name = stem + seq!['.'] + ext;
    assert(file_kind_text(name, false) == kind_for(ascii_lower(ext)));
    assert(file_icon_text(name, false) == icon_for(ascii_lower(ext)));
    lemma_extension_table(ascii_lower(ext));
    assert(ascii_lower(Seq::<char>::empty()) =~= Seq::<char>::empty());
    lemma_extension_table(Seq::<char>::empty());
    assert(extension(ext) == Seq::<char>::empty());
    reveal_strlit("exe");
    assert(Seq::<char>::empty() != "exe"@) by { assert("exe"@.len() > 0); }
    reveal_strlit("dll");
    assert(Seq::<char>::empty() != "dll"@) by { assert("dll"@.len() > 0); }
    reveal_strlit("rs");
    assert(Seq::<char>::empty() != "rs"@) by { assert("rs"@.len() > 0); }
    reveal_strlit("toml");
    assert(Seq::<char>::empty() != "toml"@) by { assert("toml"@.len() > 0); }
    reveal_strlit("md");
    assert(Seq::<char>::empty() != "md"@) by { assert("md"@.len() > 0); }
    reveal_strlit("txt");
    assert(Seq::<char>::empty() != "txt"@) by { assert("txt"@.len() > 0); }
    reveal_strlit("png");
    assert(Seq::<char>::empty() != "png"@) by { assert("png"@.len() > 0); }
    reveal_strlit("jpg");
    assert(Seq::<char>::empty() != "jpg"@) by { assert("jpg"@.len() > 0); }
    reveal_strlit("jpeg");
    assert(Seq::<char>::empty() != "jpeg"@) by { assert("jpeg"@.len() > 0); }
    reveal_strlit("gif");
    assert(Seq::<char>::empty() != "gif"@) by { assert("gif"@.len() > 0); }
    reveal_strlit("webp");
    assert(Seq::<char>::empty() != "webp"@) by { assert("webp"@.len() > 0); }
    reveal_strlit("zip");
    assert(Seq::<char>::empty() != "zip"@) by { assert("zip"@.len() > 0); }
    reveal_strlit("7z");
    assert(Seq::<char>::empty() != "7z"@) by { assert("7z"@.len() > 0); }
    reveal_strlit("rar");
    assert(Seq::<char>::empty() != "rar"@) by { assert("rar"@.len() > 0); }
    reveal_strlit("json");
    assert(Seq::<char>::empty() != "json"@) by { assert("json"@.len() > 0); }
}

} // verus!
