//! One extent file as a whole: its header and the descriptor embedded in it.

use vstd::prelude::*;
use vstd::slice::slice_subrange;
use vstd::utf8::{decode_utf8, valid_utf8};
use crate::descriptor::{parse_descriptor, Descriptor, DescriptorView};
use crate::error::{is_outcome, is_outcome_view, ErrorView, VmdkError};
use crate::header::{decode_header, lemma_signature, ExtentHeader};
use crate::text::{chars_of, string_of, strip_trailing_nuls, text_of_utf8, without_trailing_nuls};

verus! {

/// The header and the descriptor of one extent file. Sector data is not read
/// through it: the header's grain fields say where a reader of grains finds
/// them.
#[derive(Debug, Clone, PartialEq, Eq)]
pub struct Vmdk {
    /// The decoded header.
    pub extent_header: ExtentHeader,
    /// The text of the embedded descriptor, without its padding. It holds
    /// the disk database too, which `descriptor` does not.
    pub descriptor_text: String,
    /// The parsed descriptor.
    pub descriptor: Descriptor,
}

/// A `Vmdk` with its texts as sequences of characters.
pub struct VmdkView {
    pub extent_header: ExtentHeader,
    pub descriptor_text: Seq<char>,
    pub descriptor: DescriptorView,
}

impl View for Vmdk {
    type V = VmdkView;

    open spec fn view(&self) -> VmdkView {
        VmdkView {
            extent_header: self.extent_header,
            descriptor_text: self.descriptor_text@,
            descriptor: self.descriptor@,
        }
    }
}

/// Where the embedded descriptor lies in the file, in bytes: its offset and
/// its length. `RangeOverflow` when the offset does not fit 64 bits or the
/// length is more than a buffer can hold.
pub open spec fn descriptor_range(header: ExtentHeader) -> Result<(u64, usize), ErrorView> {
    if header.desc_offset.in_bytes() > u64::MAX || header.desc_size.in_bytes() > usize::MAX {
        Err(ErrorView::RangeOverflow)
    } else {
        Ok((header.desc_offset.in_bytes() as u64, header.desc_size.in_bytes() as usize))
    }
}

/// The text in the descriptor's region of the file: the bytes decoded as
/// UTF-8, without the NUL characters that pad the region at its end.
/// `Encoding` when the bytes are not UTF-8.
pub open spec fn descriptor_text(region: Seq<u8>) -> Result<Seq<char>, ErrorView> {
    if valid_utf8(region) {
        Ok(without_trailing_nuls(decode_utf8(region)))
    } else {
        Err(ErrorView::Encoding)
    }
}

/// The container that a decoded header and the bytes of the descriptor's
/// region make.
pub open spec fn assemble(header: ExtentHeader, region: Seq<u8>) -> Result<VmdkView, ErrorView> {
    match descriptor_text(region) {
        Err(e) => Err(e),
        Ok(text) => match parse_descriptor(text) {
            Err(e) => Err(e),
            Ok(descriptor) => Ok(
                VmdkView { extent_header: header, descriptor_text: text, descriptor },
            ),
        },
    }
}

/// The container that the bytes of a whole extent file hold. The header is
/// decoded from the start of the file. The descriptor's region must lie
/// within the file: one that reaches past its end cannot be read, which is
/// an `Io`.
pub open spec fn open_image(image: Seq<u8>) -> Result<VmdkView, ErrorView> {
    match decode_header(image) {
        Err(e) => Err(e),
        Ok(header) => match descriptor_range(header) {
            Err(e) => Err(e),
            Ok((offset, len)) => if offset + len > image.len() {
                Err(ErrorView::Io)
            } else {
                assemble(header, image.subrange(offset as int, offset + len))
            },
        },
    }
}

impl VmdkView {
    /// Whether the parts belong together: the header is a decoded one, and
    /// the descriptor is what the text says.
    pub open spec fn wf(self) -> bool {
        self.extent_header.wf() && parse_descriptor(self.descriptor_text) == Ok::<
            DescriptorView,
            ErrorView,
        >(self.descriptor)
    }
}

/// A container made from a decoded header is well-formed. So is every
/// container decoded from the bytes of a file, and the region that its
/// header names for the descriptor lies within the file.
pub proof fn lemma_containers_are_wf(header: ExtentHeader, region: Seq<u8>, image: Seq<u8>)
    ensures
        assemble(header, region) matches Ok(v) ==> (v.wf() <==> header.wf()),
        open_image(image) matches Ok(v) ==> v.wf() && v.extent_header.desc_offset.in_bytes()
            + v.extent_header.desc_size.in_bytes() <= image.len(),
{
    lemma_signature(image);
}

impl ExtentHeader {
    /// Where the embedded descriptor lies in the file, in bytes: its offset
    /// and its length.
    pub fn descriptor_range(&self) -> (r: Result<(u64, usize), VmdkError>)
        ensures
            is_outcome(r, descriptor_range(*self)),
    {
        let offset = match self.desc_offset.byte_offset() {
            Ok(n) => n,
            Err(e) => { return Err(e); },
        };
        let len = match self.desc_size.byte_len() {
            Ok(n) => n,
            Err(e) => { return Err(e); },
        };
        Ok((offset, len))
    }
}

impl Vmdk {
    /// Reads the descriptor's text from the bytes of its region.
    pub fn extract_descriptor(region: &[u8]) -> (r: Result<String, VmdkError>)
        ensures
            is_outcome_view(r, descriptor_text(region@)),
    {
        match text_of_utf8(region) {
            Some(padded) => {
                let chars = chars_of(padded);
                Ok(string_of(strip_trailing_nuls(chars.as_slice())))
            },
            None => Err(VmdkError::Encoding),
        }
    }

    /// Makes the container from a decoded header and the bytes of the
    /// descriptor's region.
    pub fn from_parts(extent_header: ExtentHeader, region: &[u8]) -> (r: Result<Vmdk, VmdkError>)
        ensures
            is_outcome_view(r, assemble(extent_header, region@)),
            r matches Ok(v) ==> (v@.wf() <==> extent_header.wf()),
    {
        let padded = match text_of_utf8(region) {
            Some(s) => s,
            None => { return Err(VmdkError::Encoding); },
        };
        let chars = chars_of(padded);
        let text = strip_trailing_nuls(chars.as_slice());
        match Descriptor::from_chars(text) {
            Ok(descriptor) => Ok(
                Vmdk { extent_header, descriptor_text: string_of(text), descriptor },
            ),
            Err(e) => Err(e),
        }
    }

    /// Decodes the container from the bytes of a whole extent file.
    pub fn new(image: &[u8]) -> (r: Result<Vmdk, VmdkError>)
        ensures
            is_outcome_view(r, open_image(image@)),
            r matches Ok(v) ==> v@.wf() && v.extent_header.desc_offset.in_bytes()
                + v.extent_header.desc_size.in_bytes() <= image@.len(),
    {
        let extent_header = match ExtentHeader::new(image) {
            Ok(h) => h,
            Err(e) => { return Err(e); },
        };
        let (offset, len) = match extent_header.descriptor_range() {
            Ok(range) => range,
            Err(e) => { return Err(e); },
        };
        if offset > image.len() as u64 || len > image.len() - offset as usize {
            return Err(VmdkError::Io);
        }
        let start = offset as usize;
        Vmdk::from_parts(extent_header, slice_subrange(image, start, start + len))
    }
}

} // verus!
