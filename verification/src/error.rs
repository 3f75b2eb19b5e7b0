//! Error values of the library.

use vstd::prelude::*;
use vstd::string::StringExecFns;

verus! {

/// A structural defect of a drawing.
#[derive(Debug)]
pub enum DrawingMLError {
    /// An element that the schema requires is absent.
    MissingRequiredElement(String),
    /// A position element carries conflicting settings.
    InvalidPositioning(String),
    /// The drawing lacks part of its structure.
    IncompleteStructure(String),
}

/// The mathematical value of a structural defect: its kind and its detail
/// text.
pub enum DefectModel {
    MissingRequiredElement(Seq<char>),
    InvalidPositioning(Seq<char>),
    IncompleteStructure(Seq<char>),
}

impl View for DrawingMLError {
    type V = DefectModel;

    open spec fn view(&self) -> DefectModel {
        match self {
            DrawingMLError::MissingRequiredElement(m) => DefectModel::MissingRequiredElement(m@),
            DrawingMLError::InvalidPositioning(m) => DefectModel::InvalidPositioning(m@),
            DrawingMLError::IncompleteStructure(m) => DefectModel::IncompleteStructure(m@),
        }
    }
}

impl DrawingMLError {
    /// The detail text the error was made with.
    pub open spec fn detail(&self) -> Seq<char> {
        match self {
            DrawingMLError::MissingRequiredElement(m) => m@,
            DrawingMLError::InvalidPositioning(m) => m@,
            DrawingMLError::IncompleteStructure(m) => m@,
        }
    }

    /// The words that introduce the detail text in a message.
    pub open spec fn heading(&self) -> Seq<char> {
        match self {
            DrawingMLError::MissingRequiredElement(_) => "Missing required element: "@,
            DrawingMLError::InvalidPositioning(_) => "Invalid positioning: "@,
            DrawingMLError::IncompleteStructure(_) => "Incomplete structure: "@,
        }
    }

    /// The message a user is shown: heading, then detail.
    pub fn message(&self) -> (text: String)
        ensures
            text@ == self.heading() + self.detail(),
    {
        match self {
            DrawingMLError::MissingRequiredElement(m) => {
                String::from_str("Missing required element: ").concat(m.as_str())
            },
            DrawingMLError::InvalidPositioning(m) => {
                String::from_str("Invalid positioning: ").concat(m.as_str())
            },
            DrawingMLError::IncompleteStructure(m) => {
                String::from_str("Incomplete structure: ").concat(m.as_str())
            },
        }
    }
}

/// Why reading or writing a document failed.
#[derive(Debug)]
pub enum DocxError {
    /// The container could not be read or written.
    IO(String),
    /// A part does not have the tags or attributes that are expected of it.
    Xml(String),
    /// The container is not a valid archive.
    Zip(String),
    /// A drawing breaks a rule that keeps the document openable.
    DrawingMLCompatibility(String),
}

impl DrawingMLError {
    /// The error as a failure of a whole operation: a drawing-compatibility
    /// error that carries the message of this one.
    pub fn into_docx_error(self) -> (error: DocxError)
        ensures
            error is DrawingMLCompatibility,
            error.detail() == self.heading() + self.detail(),
    {
        DocxError::DrawingMLCompatibility(self.message())
    }
}

impl DocxError {
    /// The detail text the error was made with.
    pub open spec fn detail(&self) -> Seq<char> {
        match self {
            DocxError::IO(m) => m@,
            DocxError::Xml(m) => m@,
            DocxError::Zip(m) => m@,
            DocxError::DrawingMLCompatibility(m) => m@,
        }
    }

    /// The words that introduce the detail text in a message.
    pub open spec fn heading(&self) -> Seq<char> {
        match self {
            DocxError::IO(_) => "IO error: "@,
            DocxError::Xml(_) => "malformed XML: "@,
            DocxError::Zip(_) => "unable to unpack file: "@,
            DocxError::DrawingMLCompatibility(_) => "DrawingML compatibility error: "@,
        }
    }

    /// The message a user is shown: heading, then detail.
    pub fn message(&self) -> (text: String)
        ensures
            text@ == self.heading() + self.detail(),
    {
        match self {
            DocxError::IO(m) => String::from_str("IO error: ").concat(m.as_str()),
            DocxError::Xml(m) => String::from_str("malformed XML: ").concat(m.as_str()),
            DocxError::Zip(m) => String::from_str("unable to unpack file: ").concat(m.as_str()),
            DocxError::DrawingMLCompatibility(m) => {
                String::from_str("DrawingML compatibility error: ").concat(m.as_str())
            },
        }
    }

    /// A malformed-XML error that names an element and what is wrong with it.
    pub fn malformed(element: &str, complaint: &str) -> (error: DocxError)
        ensures
            error is Xml,
            error.detail() == element@ + ": "@ + complaint@,
    {
        DocxError::Xml(String::from_str(element).concat(": ").concat(complaint))
    }
}

/// The result of an operation that can fail with a [`DocxError`].
pub type DocxResult<T> = Result<T, DocxError>;

} // verus!
