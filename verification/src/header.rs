//! The EBML header of a file.

use vstd::prelude::*;

use crate::ebml::{children_at, fields_of, master_at, Fields};
use crate::ebml::{collect_children, expect_master, ElementData};
use crate::element_id::ElementId;
use crate::error::DemuxError;
use crate::fields::{find_string, find_unsigned, try_find_unsigned};
use crate::fields::{defaulted, mandatory, string_field, unsigned_field};
use crate::source::{Media, Source};

verus! {

/// The EBML header of the file.
#[derive(Clone, Debug)]
pub struct EbmlHeader {
    version: Option<u64>,
    read_version: Option<u64>,
    max_id_length: u64,
    max_size_length: u64,
    doc_type: String,
    doc_type_version: u64,
    doc_type_read_version: u64,
}

/// What an [`EbmlHeader`] stands for.
pub struct EbmlHeaderView {
    /// The EBML version used to create the file.
    pub version: Option<u64>,
    /// The minimum EBML version a parser has to support to read this file.
    pub read_version: Option<u64>,
    /// The maximum length of the IDs.
    pub max_id_length: u64,
    /// The maximum length of the sizes.
    pub max_size_length: u64,
    /// The type of the document.
    pub doc_type: Seq<char>,
    /// The version of the interpreter used to create the file.
    pub doc_type_version: u64,
    /// The minimum version an interpreter has to support to read this file.
    pub doc_type_read_version: u64,
}

impl View for EbmlHeader {
    type V = EbmlHeaderView;

    closed spec fn view(&self) -> EbmlHeaderView {
        EbmlHeaderView {
            version: self.version,
            read_version: self.read_version,
            max_id_length: self.max_id_length,
            max_size_length: self.max_size_length,
            doc_type: self.doc_type@,
            doc_type_version: self.doc_type_version,
            doc_type_read_version: self.doc_type_read_version,
        }
    }
}

/// The header that the children of the EBML element give: the first child that is missing or has
/// the wrong type is the error.
pub open spec fn ebml_header_of(fields: Fields) -> Result<EbmlHeaderView, DemuxError> {
    let version = unsigned_field(fields, ElementId::EbmlVersion);
    let read_version = unsigned_field(fields, ElementId::EbmlReadVersion);
    let max_id_length = defaulted(unsigned_field(fields, ElementId::EbmlMaxIdLength), 4);
    let max_size_length = defaulted(unsigned_field(fields, ElementId::EbmlMaxSizeLength), 8);
    let doc_type = mandatory(string_field(fields, ElementId::DocType), ElementId::DocType);
    let doc_type_version = mandatory(
        unsigned_field(fields, ElementId::DocTypeVersion),
        ElementId::DocTypeVersion,
    );
    let doc_type_read_version = mandatory(
        unsigned_field(fields, ElementId::DocTypeReadVersion),
        ElementId::DocTypeReadVersion,
    );
    if let Err(error) = version {
        Err(error)
    } else if let Err(error) = read_version {
        Err(error)
    } else if let Err(error) = max_id_length {
        Err(error)
    } else if let Err(error) = max_size_length {
        Err(error)
    } else if let Err(error) = doc_type {
        Err(error)
    } else if let Err(error) = doc_type_version {
        Err(error)
    } else if let Err(error) = doc_type_read_version {
        Err(error)
    } else {
        Ok(
            EbmlHeaderView {
                version: version->Ok_0,
                read_version: read_version->Ok_0,
                max_id_length: max_id_length->Ok_0,
                max_size_length: max_size_length->Ok_0,
                doc_type: doc_type->Ok_0,
                doc_type_version: doc_type_version->Ok_0,
                doc_type_read_version: doc_type_read_version->Ok_0,
            },
        )
    }
}

impl EbmlHeader {
    /// Makes a header of the children of the EBML element.
    pub fn new(fields: &[(ElementId, ElementData)]) -> (result: Result<Self, DemuxError>)
        ensures
            match (result, ebml_header_of(fields_of(fields@))) {
                (Ok(header), Ok(view)) => header@ == view,
                (Err(error), Err(cause)) => error == cause,
                _ => false,
            },
    {
        let version = try_find_unsigned(fields, ElementId::EbmlVersion)?;
        let read_version = try_find_unsigned(fields, ElementId::EbmlReadVersion)?;
        let max_id_length = try_find_unsigned(fields, ElementId::EbmlMaxIdLength)?;
        let max_size_length = try_find_unsigned(fields, ElementId::EbmlMaxSizeLength)?;
        let doc_type = find_string(fields, ElementId::DocType)?;
        let doc_type_version: u64 = find_unsigned(fields, ElementId::DocTypeVersion)?;
        let doc_type_read_version: u64 = find_unsigned(fields, ElementId::DocTypeReadVersion)?;

        Ok(
            Self {
                version,
                read_version,
                max_id_length: max_id_length.unwrap_or(4),
                max_size_length: max_size_length.unwrap_or(8),
                doc_type,
                doc_type_version,
                doc_type_read_version,
            },
        )
    }

    /// The EBML version used to create the file.
    pub fn version(&self) -> (version: Option<u64>)
        ensures
            version == self@.version,
    {
        self.version
    }

    /// The minimum EBML version a parser has to support to read this file.
    pub fn read_version(&self) -> (read_version: Option<u64>)
        ensures
            read_version == self@.read_version,
    {
        self.read_version
    }

    /// The maximum length of the IDs you'll find in this file (4 or less in Matroska).
    pub fn max_id_length(&self) -> (max_id_length: u64)
        ensures
            max_id_length == self@.max_id_length,
    {
        self.max_id_length
    }

    /// The maximum length of the sizes you'll find in this file (8 or less in Matroska).
    pub fn max_size_length(&self) -> (max_size_length: u64)
        ensures
            max_size_length == self@.max_size_length,
    {
        self.max_size_length
    }

    /// A string that describes the type of document that follows this EBML header ('matroska' / 'webm').
    pub fn doc_type(&self) -> (doc_type: &str)
        ensures
            doc_type@ == self@.doc_type,
    {
        self.doc_type.as_str()
    }

    /// The version of DocType interpreter used to create the file.
    pub fn doc_type_version(&self) -> (doc_type_version: u64)
        ensures
            doc_type_version == self@.doc_type_version,
    {
        self.doc_type_version
    }

    /// The minimum DocType version an interpreter has to support to read this file.
    pub fn doc_type_read_version(&self) -> (doc_type_read_version: u64)
        ensures
            doc_type_read_version == self@.doc_type_read_version,
    {
        self.doc_type_read_version
    }
}

/// The header of the file that starts at `position`, and the position behind it.
pub open spec fn ebml_header_at(media: Media, position: int) -> Result<
    (EbmlHeaderView, int),
    DemuxError,
> {
    match master_at(media, position, ElementId::Ebml) {
        Err(error) => Err(error),
        Ok((offset, size)) => match children_at(media, offset, size) {
            Err(error) => Err(error),
            Ok((fields, next)) => match ebml_header_of(fields) {
                Err(error) => Err(error),
                Ok(header) => Ok((header, next)),
            },
        },
    }
}

/// Reads the EBML header at the current position.
pub fn parse_ebml_header<R: Source>(r: &mut R) -> (result: Result<EbmlHeader, DemuxError>)
    ensures
        final(r).media() == old(r).media(),
        match (result, ebml_header_at(old(r).media(), old(r).position() as int)) {
            (Ok(header), Ok((view, next))) => header@ == view && final(r).position() == next,
            (Err(error), Err(cause)) => error == cause,
            _ => false,
        },
{
    let (offset, size): (u64, u64) = expect_master(r, ElementId::Ebml, None)?;
    let children = collect_children(r, offset, size)?;
    EbmlHeader::new(children.as_slice())
}

} // verus!
