//! The text descriptor embedded in an extent: its entities and its grammar.

use vstd::prelude::*;
use vstd::slice::slice_subrange;
use crate::error::{is_outcome, is_outcome_view, ErrorView, VmdkError};
use crate::sector::SectorType;
use crate::text::{
    blanks_end, chars_of, equals, is_blank, lemma_blanks_end, lemma_trimmed_len,
    lemma_unsigned_bounds, lemma_word_end, line_views, lines_of, parse_decimal_u32,
    parse_decimal_u64, parse_hex_u32, skip_blanks, skip_word, split_lines, starts_with,
    string_of, strip_prefix, trim_end, trimmed_len, unsigned_of, word_count, word_end,
};

verus! {

/// The kind of one extent. Only `Sparse` has a tag that is read.
#[derive(Debug, Clone, Copy, PartialEq, Eq)]
pub enum ExtentType {
    Flat,
    Sparse,
    Zero,
    Vmfs,
    VmfsSparse,
    VmfsRdm,
    VmfsRaw,
}

/// The kind of disk that the descriptor was created as. Only
/// `MonolithicSparse` has a tag that is read.
#[derive(Debug, Clone, Copy, PartialEq, Eq)]
pub enum DiskType {
    MonolithicSparse,
    VmfsSparse,
    MonolithicFlat,
    Vmfs,
    TwoGbMaxExtentSparse,
    TwoGbMaxExtentFlat,
    FullDevice,
    VmfsRaw,
    PartitionedDevice,
    VmfsRawDeviceMap,
    VmfsPassthroughRawDeviceMap,
    StreamOptimized,
}

/// The disk-database section. It is known to the parser, which passes over
/// its lines; none of its entries is decoded.
#[derive(Debug, Clone, Copy, PartialEq, Eq)]
pub struct DiskDatabase;

impl ExtentType {
    /// The extent type that `tag` names. The tag is matched as it stands,
    /// without quotes; any other text is an invalid value of `ExtentType`.
    pub open spec fn of_tag(tag: Seq<char>) -> Result<ExtentType, ErrorView> {
        if tag == "SPARSE"@ {
            Ok(ExtentType::Sparse)
        } else {
            Err(ErrorView::InvalidEnumValue { raw: tag, enum_name: "ExtentType"@ })
        }
    }

    /// Reads an extent type from its tag.
    pub fn from_chars(tag: &[char]) -> (r: Result<ExtentType, VmdkError>)
        ensures
            is_outcome(r, ExtentType::of_tag(tag@)),
    {
        if equals(tag, "SPARSE") {
            Ok(ExtentType::Sparse)
        } else {
            Err(
                VmdkError::InvalidEnumValue {
                    raw: string_of(tag),
                    enum_name: "ExtentType".to_owned(),
                },
            )
        }
    }

    /// Reads an extent type from its tag.
    pub fn from_str(s: &str) -> (r: Result<ExtentType, VmdkError>)
        ensures
            is_outcome(r, ExtentType::of_tag(s@)),
    {
        let tag = chars_of(s);
        ExtentType::from_chars(tag.as_slice())
    }
}

impl DiskType {
    /// The disk type that `tag` names. The tag is matched as it stands in the
    /// descriptor, quotes included; any other text is an invalid value of
    /// `DiskType`.
    pub open spec fn of_tag(tag: Seq<char>) -> Result<DiskType, ErrorView> {
        if tag == "\"monolithicSparse\""@ {
            Ok(DiskType::MonolithicSparse)
        } else {
            Err(ErrorView::InvalidEnumValue { raw: tag, enum_name: "DiskType"@ })
        }
    }

    /// Reads a disk type from its quoted tag.
    pub fn from_chars(tag: &[char]) -> (r: Result<DiskType, VmdkError>)
        ensures
            is_outcome(r, DiskType::of_tag(tag@)),
    {
        if equals(tag, "\"monolithicSparse\"") {
            Ok(DiskType::MonolithicSparse)
        } else {
            Err(
                VmdkError::InvalidEnumValue {
                    raw: string_of(tag),
                    enum_name: "DiskType".to_owned(),
                },
            )
        }
    }

    /// Reads a disk type from its quoted tag.
    pub fn from_str(s: &str) -> (r: Result<DiskType, VmdkError>)
        ensures
            is_outcome(r, DiskType::of_tag(s@)),
    {
        let tag = chars_of(s);
        DiskType::from_chars(tag.as_slice())
    }
}

impl Default for DiskType {
    fn default() -> (t: DiskType)
        ensures
            t == DiskType::MonolithicSparse,
    {
        DiskType::MonolithicSparse
    }
}

/// One backing file of the disk, as one line of the extent description
/// records it.
#[derive(Debug, Clone, PartialEq, Eq)]
pub struct ExtentDescriptor {
    /// The access mode, as the line spells it.
    pub access_mode: String,
    /// The size of the extent.
    pub sectors: SectorType,
    /// The kind of the extent.
    pub extent_type: ExtentType,
    /// The path of the backing file, without its quotes. It may be relative
    /// to the directory that holds the descriptor.
    pub path: String,
}

/// An `ExtentDescriptor` with its texts as sequences of characters.
pub struct ExtentDescriptorView {
    pub access_mode: Seq<char>,
    pub sectors: SectorType,
    pub extent_type: ExtentType,
    pub path: Seq<char>,
}

impl View for ExtentDescriptor {
    type V = ExtentDescriptorView;

    open spec fn view(&self) -> ExtentDescriptorView {
        ExtentDescriptorView {
            access_mode: self.access_mode@,
            sectors: self.sectors,
            extent_type: self.extent_type,
            path: self.path@,
        }
    }
}

/// Whether `field` is a text between two double quotes.
pub open spec fn is_quoted(field: Seq<char>) -> bool {
    field.len() >= 2 && field.first() == '"' && field.last() == '"'
}

/// Where the field of number `n` starts in `line`, counted from zero, the
/// length of the line when it has no such field. Blanks part the fields.
pub open spec fn field_start(line: Seq<char>, n: nat) -> int
    decreases n,
{
    if n == 0 {
        blanks_end(line, 0)
    } else {
        blanks_end(line, word_end(line, field_start(line, (n - 1) as nat)))
    }
}

/// The word of number `n` in `line`, counted from zero.
pub open spec fn word(line: Seq<char>, n: nat) -> Seq<char> {
    line.subrange(field_start(line, n), word_end(line, field_start(line, n)))
}

/// The record that one line of the extent description holds. The line has
/// four fields: three words, which are the access mode, the decimal number
/// of sectors and the tag of the extent type, and then, up to the last
/// character that is no blank, the quoted path, which may hold blanks. The
/// fields are judged in this order: a line of fewer than four words, then a
/// number of sectors that is no decimal number of 64 bits, are a
/// `FieldParse`; then a tag that is not known is an `InvalidEnumValue`; then
/// a fourth field that is not quoted is a `FieldParse`.
pub open spec fn extent_record(line: Seq<char>) -> Result<ExtentDescriptorView, ErrorView> {
    let path_field = line.subrange(field_start(line, 3), trimmed_len(line));
    if field_start(line, 3) >= line.len() {
        Err(ErrorView::FieldParse)
    } else {
        match unsigned_of(word(line, 1), 10, u64::MAX as int) {
            None => Err(ErrorView::FieldParse),
            Some(sectors) => match ExtentType::of_tag(word(line, 2)) {
                Err(e) => Err(e),
                Ok(extent_type) => if is_quoted(path_field) {
                    Ok(
                        ExtentDescriptorView {
                            access_mode: word(line, 0),
                            sectors: SectorType(sectors as u64),
                            extent_type,
                            path: path_field.subrange(1, path_field.len() - 1),
                        },
                    )
                } else {
                    Err(ErrorView::FieldParse)
                },
            },
        }
    }
}

/// The fields of a line start within it, each behind the one before, and a
/// line has a field of number `n` exactly when it has more than `n` words.
pub proof fn lemma_field_start(line: Seq<char>, n: nat)
    ensures
        0 <= field_start(line, n) <= line.len(),
        n > 0 ==> field_start(line, (n - 1) as nat) <= field_start(line, n),
        field_start(line, n) < line.len() <==> word_count(line, 0) > n,
        field_start(line, n) < line.len() ==> word_count(line, 0) == n + 1 + word_count(
            line,
            word_end(line, field_start(line, n)),
        ),
    decreases n,
{
    if n == 0 {
        lemma_blanks_end(line, 0);
    } else {
        let before = field_start(line, (n - 1) as nat);
        lemma_field_start(line, (n - 1) as nat);
        lemma_word_end(line, before);
        lemma_blanks_end(line, word_end(line, before));
    }
}

/// A field that a line has starts with a word: at least one character, and
/// none that is a blank.
pub proof fn lemma_word(line: Seq<char>, n: nat)
    requires
        field_start(line, n) < line.len(),
    ensures
        word(line, n).len() > 0,
        forall|i: int| 0 <= i < word(line, n).len() ==> !is_blank(#[trigger] word(line, n)[i]),
{
    lemma_field_start(line, n);
    lemma_blanks_end(line, 0);
    if n > 0 {
        lemma_field_start(line, (n - 1) as nat);
        lemma_word_end(line, field_start(line, (n - 1) as nat));
        lemma_blanks_end(line, word_end(line, field_start(line, (n - 1) as nat)));
    }
    lemma_word_end(line, field_start(line, n));
}

/// A line with fewer than four words in it holds no record: it is a
/// `FieldParse`, whatever its words are.
pub proof fn lemma_short_line_fails(line: Seq<char>)
    requires
        word_count(line, 0) < 4,
    ensures
        extent_record(line) == Err::<ExtentDescriptorView, ErrorView>(ErrorView::FieldParse),
{
    lemma_field_start(line, 3);
}

/// A line of four words or more, with a number of sectors that can be read,
/// whose third word is not on the allow-list of `ExtentType` is an
/// `InvalidEnumValue` that names that word and the enumeration.
pub proof fn lemma_unknown_extent_type(line: Seq<char>)
    requires
        word_count(line, 0) >= 4,
        unsigned_of(word(line, 1), 10, u64::MAX as int) is Some,
        word(line, 2) != "SPARSE"@,
    ensures
        extent_record(line) == Err::<ExtentDescriptorView, ErrorView>(
            ErrorView::InvalidEnumValue { raw: word(line, 2), enum_name: "ExtentType"@ },
        ),
{
    lemma_field_start(line, 3);
}

impl ExtentDescriptor {
    /// Reads the record that one line of the extent description holds.
    pub fn from_chars(line: &[char]) -> (r: Result<ExtentDescriptor, VmdkError>)
        ensures
            is_outcome_view(r, extent_record(line@)),
            word_count(line@, 0) < 4 ==> (r matches Err(e) && e@ == ErrorView::FieldParse),
    {
        proof {
            reveal_with_fuel(field_start, 4);
            if word_count(line@, 0) < 4 {
                lemma_short_line_fails(line@);
            }
        }
        let mode_start = skip_blanks(line, 0);
        let mode_end = skip_word(line, mode_start);
        let sectors_start = skip_blanks(line, mode_end);
        let sectors_end = skip_word(line, sectors_start);
        let type_start = skip_blanks(line, sectors_end);
        let type_end = skip_word(line, type_start);
        let path_start = skip_blanks(line, type_end);
        if path_start >= line.len() {
            return Err(VmdkError::FieldParse);
        }
        let path_end = trim_end(line);
        proof {
            lemma_blanks_end(line@, type_end as int);
            lemma_trimmed_len(line@, path_start as int);
        }
        let sectors = match parse_decimal_u64(slice_subrange(line, sectors_start, sectors_end)) {
            Some(n) => n,
            None => { return Err(VmdkError::FieldParse); },
        };
        let extent_type = match ExtentType::from_chars(slice_subrange(line, type_start, type_end)) {
            Ok(t) => t,
            Err(e) => { return Err(e); },
        };
        let path_field = slice_subrange(line, path_start, path_end);
        if path_field.len() < 2 || path_field[0] != '"' || path_field[path_field.len() - 1] != '"' {
            return Err(VmdkError::FieldParse);
        }
        Ok(
            ExtentDescriptor {
                access_mode: string_of(slice_subrange(line, mode_start, mode_end)),
                sectors: SectorType(sectors),
                extent_type,
                path: string_of(slice_subrange(path_field, 1, path_field.len() - 1)),
            },
        )
    }

    /// Reads the record that one line of the extent description holds.
    pub fn from_str(s: &str) -> (r: Result<ExtentDescriptor, VmdkError>)
        ensures
            is_outcome_view(r, extent_record(s@)),
            word_count(s@, 0) < 4 ==> (r matches Err(e) && e@ == ErrorView::FieldParse),
    {
        let line = chars_of(s);
        ExtentDescriptor::from_chars(line.as_slice())
    }
}

/// The raw parent identifier that stands for "no parent": all ones.
pub const CID_NOPARENT: u32 = 0xffffffff;

/// What the embedded descriptor says of the disk.
#[derive(Debug, Clone, PartialEq, Eq)]
pub struct Descriptor {
    /// The version of the descriptor.
    pub version: u32,
    /// The content identifier, which changes with every write to the disk.
    pub cid: u32,
    /// The content identifier of the parent, `None` for a disk without one.
    pub parent_cid: Option<u32>,
    /// The kind of disk.
    pub create_type: DiskType,
    /// The extents in the order in which the descriptor declares them.
    pub extent_descriptors: Vec<ExtentDescriptor>,
}

/// A `Descriptor` with its extents as a sequence of their views.
pub struct DescriptorView {
    pub version: u32,
    pub cid: u32,
    pub parent_cid: Option<u32>,
    pub create_type: DiskType,
    pub extent_descriptors: Seq<ExtentDescriptorView>,
}

impl View for Descriptor {
    type V = DescriptorView;

    open spec fn view(&self) -> DescriptorView {
        DescriptorView {
            version: self.version,
            cid: self.cid,
            parent_cid: self.parent_cid,
            create_type: self.create_type,
            extent_descriptors: self.extent_descriptors@.map_values(|e: ExtentDescriptor| e@),
        }
    }
}

impl DescriptorView {
    /// The descriptor that an empty text gives: version and identifier zero,
    /// no parent, a monolithic sparse disk, no extent.
    pub open spec fn empty() -> DescriptorView {
        DescriptorView {
            version: 0,
            cid: 0,
            parent_cid: None,
            create_type: DiskType::MonolithicSparse,
            extent_descriptors: Seq::empty(),
        }
    }
}

/// The three kinds of section of a descriptor.
#[derive(Debug, Clone, Copy, PartialEq, Eq)]
pub enum Section {
    /// The header: lines of the form `key=value`.
    Header,
    /// The extent description: one record in each line.
    Extents,
    /// The disk database, which is passed over.
    Database,
}

/// The kind of the section that `label` starts: a label is known by how it
/// begins. `None` for a label that is not known.
pub open spec fn section_of(label: Seq<char>) -> Option<Section> {
    if "Disk DescriptorFile"@.is_prefix_of(label) {
        Some(Section::Header)
    } else if "Extent description"@.is_prefix_of(label) {
        Some(Section::Extents)
    } else if "The disk Data Base"@.is_prefix_of(label) {
        Some(Section::Database)
    } else {
        None
    }
}

/// The parent that a raw identifier names: none for all ones, else the
/// identifier itself.
pub open spec fn parent_of(raw: u32) -> Option<u32> {
    if raw == CID_NOPARENT {
        None
    } else {
        Some(raw)
    }
}

/// The descriptor `d` after one line of the header section. A line that
/// starts with one of the four keys sets that field from what follows the
/// `=`; when a key comes twice, the later line counts. Any other line
/// changes nothing.
pub open spec fn header_line(d: DescriptorView, line: Seq<char>) -> Result<
    DescriptorView,
    ErrorView,
> {
    if "version="@.is_prefix_of(line) {
        match unsigned_of(line.skip("version="@.len() as int), 10, u32::MAX as int) {
            Some(v) => Ok(DescriptorView { version: v as u32, ..d }),
            None => Err(ErrorView::FieldParse),
        }
    } else if "CID="@.is_prefix_of(line) {
        match unsigned_of(line.skip("CID="@.len() as int), 16, u32::MAX as int) {
            Some(v) => Ok(DescriptorView { cid: v as u32, ..d }),
            None => Err(ErrorView::FieldParse),
        }
    } else if "parentCID="@.is_prefix_of(line) {
        match unsigned_of(line.skip("parentCID="@.len() as int), 16, u32::MAX as int) {
            Some(v) => Ok(DescriptorView { parent_cid: parent_of(v as u32), ..d }),
            None => Err(ErrorView::FieldParse),
        }
    } else if "createType="@.is_prefix_of(line) {
        match DiskType::of_tag(line.skip("createType="@.len() as int)) {
            Ok(t) => Ok(DescriptorView { create_type: t, ..d }),
            Err(e) => Err(e),
        }
    } else {
        Ok(d)
    }
}

/// Where the parser stands between two lines: the section that it is in,
/// `None` before the first section, and what it has read.
pub struct ParseState {
    pub section: Option<Section>,
    pub descriptor: DescriptorView,
}

/// The state after one more line. A line that starts with `# ` is a marker
/// line: it starts the section that the rest of the line labels, and a label
/// that is not known is an `UnknownSection` that carries the label. Any
/// other line belongs to the section that the parser is in. In the header it
/// is read as `header_line` says. In the extent description it holds one
/// record, unless it is empty. In the disk database it is passed over.
/// Before the first marker line only empty lines may stand: another line is
/// an `UnknownSection` that carries the line.
pub open spec fn parse_line(state: ParseState, line: Seq<char>) -> Result<ParseState, ErrorView> {
    if "# "@.is_prefix_of(line) {
        let label = line.skip("# "@.len() as int);
        match section_of(label) {
            Some(section) => Ok(ParseState { section: Some(section), ..state }),
            None => Err(ErrorView::UnknownSection { label }),
        }
    } else {
        match state.section {
            None => if line.len() == 0 {
                Ok(state)
            } else {
                Err(ErrorView::UnknownSection { label: line })
            },
            Some(Section::Header) => match header_line(state.descriptor, line) {
                Ok(descriptor) => Ok(ParseState { descriptor, ..state }),
                Err(e) => Err(e),
            },
            Some(Section::Extents) => if line.len() == 0 {
                Ok(state)
            } else {
                match extent_record(line) {
                    Ok(extent) => Ok(
                        ParseState {
                            descriptor: DescriptorView {
                                extent_descriptors: state.descriptor.extent_descriptors.push(
                                    extent,
                                ),
                                ..state.descriptor
                            },
                            ..state
                        },
                    ),
                    Err(e) => Err(e),
                }
            },
            Some(Section::Database) => Ok(state),
        }
    }
}

/// What the lines give when they are read in order from `state` on: the
/// descriptor after the last line, or the first failure.
pub open spec fn parse_lines(lines: Seq<Seq<char>>, state: ParseState) -> Result<
    DescriptorView,
    ErrorView,
>
    decreases lines.len(),
{
    if lines.len() == 0 {
        Ok(state.descriptor)
    } else {
        match parse_line(state, lines.first()) {
            Ok(next) => parse_lines(lines.drop_first(), next),
            Err(e) => Err(e),
        }
    }
}

/// What a descriptor text says: its lines, read in order from the empty
/// descriptor and from outside any section.
pub open spec fn parse_descriptor(text: Seq<char>) -> Result<DescriptorView, ErrorView> {
    parse_lines(lines_of(text), ParseState { section: None, descriptor: DescriptorView::empty() })
}

/// A `parentCID` line whose digits spell a number of 32 bits gives no
/// parent exactly when that number is all ones, and gives any other number
/// as the parent.
pub proof fn lemma_parent_cid(d: DescriptorView, digits: Seq<char>)
    requires
        unsigned_of(digits, 16, u32::MAX as int) is Some,
    ensures
        header_line(d, "parentCID="@ + digits) matches Ok(after) && ({
            let raw = unsigned_of(digits, 16, u32::MAX as int).unwrap();
            &&& after.parent_cid is None <==> raw == 0xffffffff
            &&& raw != 0xffffffff ==> after.parent_cid == Some(raw as u32)
        }),
{
    reveal_strlit("parentCID=");
    reveal_strlit("version=");
    reveal_strlit("CID=");
    lemma_unsigned_bounds(digits, 16, u32::MAX as int);
    let line = "parentCID="@ + digits;
    assert(line[0] == 'p' && "version="@[0] == 'v' && "CID="@[0] == 'C');
    assert("parentCID="@ =~= line.subrange(0, 10));
    assert(line.skip(10) =~= digits);
}

/// A `createType` line whose tag is not on the allow-list of `DiskType` is
/// an `InvalidEnumValue` that names the tag and the enumeration.
pub proof fn lemma_unknown_create_type(d: DescriptorView, tag: Seq<char>)
    requires
        tag != "\"monolithicSparse\""@,
    ensures
        header_line(d, "createType="@ + tag) == Err::<DescriptorView, ErrorView>(
            ErrorView::InvalidEnumValue { raw: tag, enum_name: "DiskType"@ },
        ),
{
    reveal_strlit("createType=");
    reveal_strlit("parentCID=");
    reveal_strlit("version=");
    reveal_strlit("CID=");
    let line = "createType="@ + tag;
    assert(line[0] == 'c' && "version="@[0] == 'v' && "CID="@[0] == 'C' && "parentCID="@[0] == 'p');
    assert("createType="@ =~= line.subrange(0, 11));
    assert(line.skip(11) =~= tag);
}

/// Parsing is a function of the text: when the same text is parsed twice,
/// both times fail in the same way or both give descriptors that are equal
/// field for field.
pub proof fn lemma_parse_twice(
    text: Seq<char>,
    first: Result<Descriptor, VmdkError>,
    second: Result<Descriptor, VmdkError>,
)
    requires
        is_outcome_view(first, parse_descriptor(text)),
        is_outcome_view(second, parse_descriptor(text)),
    ensures
        first matches Ok(a) ==> (second matches Ok(b) && a@ == b@ && a.version == b.version
            && a.cid == b.cid && a.parent_cid == b.parent_cid && a.create_type == b.create_type
            && a.extent_descriptors@.len() == b.extent_descriptors@.len() && forall|i: int|
            0 <= i < a.extent_descriptors@.len() ==> a.extent_descriptors@[i]@
                == b.extent_descriptors@[i]@),
        first matches Err(e) ==> (second matches Err(x) && e@ == x@),
{
    if let Ok(a) = first {
        let b = second->Ok_0;
        assert(a@.extent_descriptors.len() == a.extent_descriptors@.len());
        assert(b@.extent_descriptors.len() == b.extent_descriptors@.len());
        assert forall|i: int| 0 <= i < a.extent_descriptors@.len() implies a.extent_descriptors@[i]@
            == b.extent_descriptors@[i]@ by {
            assert(a@.extent_descriptors[i] == a.extent_descriptors@[i]@);
            assert(b@.extent_descriptors[i] == b.extent_descriptors@[i]@);
        }
    }
}

impl Section {
    /// The kind of the section that `label` starts, if the label is known.
    pub fn from_label(label: &[char]) -> (r: Option<Section>)
        ensures
            r == section_of(label@),
    {
        if starts_with(label, "Disk DescriptorFile") {
            Some(Section::Header)
        } else if starts_with(label, "Extent description") {
            Some(Section::Extents)
        } else if starts_with(label, "The disk Data Base") {
            Some(Section::Database)
        } else {
            None
        }
    }
}

impl Default for Descriptor {
    fn default() -> (d: Descriptor)
        ensures
            d@ == DescriptorView::empty(),
    {
        let d = Descriptor {
            version: 0,
            cid: 0,
            parent_cid: None,
            create_type: DiskType::MonolithicSparse,
            extent_descriptors: Vec::new(),
        };
        assert(d@.extent_descriptors =~= Seq::empty());
        d
    }
}

impl Descriptor {
    /// The parent that a raw identifier names: `None` exactly for all ones.
    pub fn parent_from_raw(raw: u32) -> (parent: Option<u32>)
        ensures
            parent == parent_of(raw),
            parent is None <==> raw == 0xffffffff,
            raw != 0xffffffff ==> parent == Some(raw),
    {
        if raw == CID_NOPARENT {
            None
        } else {
            Some(raw)
        }
    }

    /// Reads one line of the header section into the descriptor. When the
    /// line is refused the descriptor stays as it was.
    pub fn read_header_line(&mut self, line: &[char]) -> (r: Result<(), VmdkError>)
        ensures
            match header_line(old(self)@, line@) {
                Ok(d) => r is Ok && final(self)@ == d,
                Err(e) => r is Err && r->Err_0@ == e && final(self)@ == old(self)@,
            },
    {
        if let Some(value) = strip_prefix(line, "version=") {
            match parse_decimal_u32(value) {
                Some(v) => {
                    self.version = v;
                    Ok(())
                },
                None => Err(VmdkError::FieldParse),
            }
        } else if let Some(value) = strip_prefix(line, "CID=") {
            match parse_hex_u32(value) {
                Some(v) => {
                    self.cid = v;
                    Ok(())
                },
                None => Err(VmdkError::FieldParse),
            }
        } else if let Some(value) = strip_prefix(line, "parentCID=") {
            match parse_hex_u32(value) {
                Some(v) => {
                    self.parent_cid = Descriptor::parent_from_raw(v);
                    Ok(())
                },
                None => Err(VmdkError::FieldParse),
            }
        } else if let Some(value) = strip_prefix(line, "createType=") {
            match DiskType::from_chars(value) {
                Ok(t) => {
                    self.create_type = t;
                    Ok(())
                },
                Err(e) => Err(e),
            }
        } else {
            Ok(())
        }
    }

    /// Reads one line of the descriptor, in the section that the parser is
    /// in, and returns the section that it is in afterwards. When the line
    /// is refused the descriptor stays as it was.
    pub fn read_line(&mut self, section: Option<Section>, line: &[char]) -> (r: Result<
        Option<Section>,
        VmdkError,
    >)
        ensures
            match parse_line(ParseState { section, descriptor: old(self)@ }, line@) {
                Ok(next) => r == Ok::<Option<Section>, VmdkError>(next.section) && final(self)@
                    == next.descriptor,
                Err(e) => r is Err && r->Err_0@ == e && final(self)@ == old(self)@,
            },
    {
        if let Some(label) = strip_prefix(line, "# ") {
            return match Section::from_label(label) {
                Some(next) => Ok(Some(next)),
                None => Err(VmdkError::UnknownSection { label: string_of(label) }),
            };
        }
        match section {
            None => {
                if line.len() == 0 {
                    Ok(section)
                } else {
                    Err(VmdkError::UnknownSection { label: string_of(line) })
                }
            },
            Some(Section::Header) => match self.read_header_line(line) {
                Ok(()) => Ok(section),
                Err(e) => Err(e),
            },
            Some(Section::Extents) => {
                if line.len() == 0 {
                    Ok(section)
                } else {
                    match ExtentDescriptor::from_chars(line) {
                        Ok(extent) => {
                            let ghost before = self@.extent_descriptors;
                            self.extent_descriptors.push(extent);
                            assert(self@.extent_descriptors =~= before.push(extent@));
                            Ok(section)
                        },
                        Err(e) => Err(e),
                    }
                }
            },
            Some(Section::Database) => Ok(section),
        }
    }

    /// Parses the text of a descriptor.
    pub fn from_chars(text: &[char]) -> (r: Result<Descriptor, VmdkError>)
        ensures
            is_outcome_view(r, parse_descriptor(text@)),
    {
        let lines = split_lines(text);
        let mut descriptor = Descriptor::default();
        let mut section: Option<Section> = None;
        let mut i: usize = 0;
        assert(line_views(lines@).skip(0) =~= line_views(lines@));
        while i < lines.len()
            invariant
                i <= lines.len(),
                parse_lines(
                    line_views(lines@).skip(i as int),
                    ParseState { section, descriptor: descriptor@ },
                ) == parse_descriptor(text@),
            decreases lines.len() - i,
        {
            assert(line_views(lines@).skip(i as int).drop_first() =~= line_views(lines@).skip(
                i + 1,
            ));
            section = match descriptor.read_line(section, lines[i].as_slice()) {
                Ok(next) => next,
                Err(e) => { return Err(e); },
            };
            i = i + 1;
        }
        Ok(descriptor)
    }

    /// Parses the text of a descriptor.
    pub fn new(text: &str) -> (r: Result<Descriptor, VmdkError>)
        ensures
            is_outcome_view(r, parse_descriptor(text@)),
    {
        let chars = chars_of(text);
        Descriptor::from_chars(chars.as_slice())
    }
}

} // verus!
