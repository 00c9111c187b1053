//! The failures that decoding a container can end in.

use vstd::prelude::*;

verus! {

/// Why a container could not be decoded. Every failure is returned to the
/// caller as a value.
#[derive(Debug, Clone, PartialEq, Eq)]
pub enum VmdkError {
    /// The first four bytes are not the extent signature.
    FormatMismatch,
    /// The header names a format version other than the supported one.
    UnsupportedVersion,
    /// The bytes end before the last header field.
    Truncated,
    /// Bytes of the file could not be read: a read failed, or the
    /// descriptor's region reaches past the end of the file.
    Io,
    /// The descriptor region is not UTF-8 text.
    Encoding,
    /// A sector count, taken as bytes, is out of the addressable range.
    RangeOverflow,
    /// A section of the descriptor carries a label that is not known.
    UnknownSection { label: String },
    /// A field of the descriptor does not have the form that its place asks for.
    FieldParse,
    /// A tag is not on the allow-list of the enumeration it was read for.
    InvalidEnumValue { raw: String, enum_name: String },
}

/// A `VmdkError` with its texts as sequences of characters.
pub enum ErrorView {
    FormatMismatch,
    UnsupportedVersion,
    Truncated,
    Io,
    Encoding,
    RangeOverflow,
    UnknownSection { label: Seq<char> },
    FieldParse,
    InvalidEnumValue { raw: Seq<char>, enum_name: Seq<char> },
}

impl View for VmdkError {
    type V = ErrorView;

    open spec fn view(&self) -> ErrorView {
        match *self {
            VmdkError::FormatMismatch => ErrorView::FormatMismatch,
            VmdkError::UnsupportedVersion => ErrorView::UnsupportedVersion,
            VmdkError::Truncated => ErrorView::Truncated,
            VmdkError::Io => ErrorView::Io,
            VmdkError::Encoding => ErrorView::Encoding,
            VmdkError::RangeOverflow => ErrorView::RangeOverflow,
            VmdkError::UnknownSection { label } => ErrorView::UnknownSection { label: label@ },
            VmdkError::FieldParse => ErrorView::FieldParse,
            VmdkError::InvalidEnumValue { raw, enum_name } => ErrorView::InvalidEnumValue {
                raw: raw@,
                enum_name: enum_name@,
            },
        }
    }
}

/// Whether the result `r` is the outcome `m`: the same value, or the same
/// failure with the same texts.
pub open spec fn is_outcome<T>(r: Result<T, VmdkError>, m: Result<T, ErrorView>) -> bool {
    match (r, m) {
        (Ok(a), Ok(b)) => a == b,
        (Err(e), Err(x)) => e@ == x,
        _ => false,
    }
}

/// Whether the result `r` is the outcome `m`: a value with that view, or the
/// same failure with the same texts.
pub open spec fn is_outcome_view<T: View>(
    r: Result<T, VmdkError>,
    m: Result<T::V, ErrorView>,
) -> bool {
    match (r, m) {
        (Ok(a), Ok(b)) => a@ == b,
        (Err(e), Err(x)) => e@ == x,
        _ => false,
    }
}

} // verus!
