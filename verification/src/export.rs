//! Exporting a document as HTML, and as PDF through an outside converter with
//! HTML to fall back on.

use vstd::prelude::*;
use vstd::string::*;
use vstd::utf8::encode_utf8;
use crate::error::{IoFailure, IoFailureView};
use crate::model::{ExportResponse, ExportedView};
use crate::path::{
    file_name, file_name_of, join, join_path, parent, parent_of, path_with_extension,
    with_extension,
};
use crate::text::{is_blank, is_blank_str};

verus! {

/// Why an export failed.
#[derive(Debug, Clone, PartialEq, Eq)]
pub enum ExportError {
    /// The path cannot be used; the text says why, or is the path itself.
    InvalidPath(String),
    /// The file system failed.
    Io(IoFailure),
    /// The converter to PDF could not be used; the text is the path of the
    /// HTML that was written in its place.
    PdfExporterUnavailable(String),
}

/// An error with its texts as sequences of characters.
pub enum ExportErrorView {
    InvalidPath(Seq<char>),
    Io(IoFailureView),
    PdfExporterUnavailable(Seq<char>),
}

impl View for ExportError {
    type V = ExportErrorView;

    open spec fn view(&self) -> ExportErrorView {
        match self {
            ExportError::InvalidPath(t) => ExportErrorView::InvalidPath(t@),
            ExportError::Io(f) => ExportErrorView::Io(f@),
            ExportError::PdfExporterUnavailable(t) => ExportErrorView::PdfExporterUnavailable(t@),
        }
    }
}

/// The view of a result: of its value or of its error.
pub open spec fn export_outcome<T: View>(r: Result<T, ExportError>) -> Result<
    T::V,
    ExportErrorView,
> {
    match r {
        Ok(v) => Ok(v@),
        Err(e) => Err(e@),
    }
}

/// The HTML that comrak renders for a markdown text under its default
/// options.
pub uninterp spec fn rendered_html(markdown: Seq<char>) -> Seq<char>;

/// `comrak::markdown_to_html` under the default options: the result is the
/// HTML of the markdown text, which depends on the text alone.
#[verifier::external_body]
fn render_html(markdown: &str) -> (html: String)
    ensures
        html@ == rendered_html(markdown@),
{
    comrak::markdown_to_html(markdown, &comrak::Options::default())
}

/// The path to which an export goes, given whether its parent exists.
pub open spec fn export_target(path: Seq<char>, parent_exists: bool) -> Result<
    Seq<char>,
    ExportErrorView,
> {
    if is_blank(path) {
        Err(ExportErrorView::InvalidPath("path is empty"@))
    } else if file_name(path) is None {
        Err(ExportErrorView::InvalidPath(path))
    } else {
        match parent(path) {
            Some(dir) => if parent_exists {
                Ok(path)
            } else {
                Err(ExportErrorView::InvalidPath("parent directory does not exist: "@ + dir))
            },
            None => Ok(path),
        }
    }
}

/// Checks that an export can go to `path`, where `parent_exists` tells
/// whether the parent of the path exists. Fails with `InvalidPath` when the
/// path is blank, has no file name, or its parent is missing.
pub fn normalize_target(path: &str, parent_exists: bool) -> (out: Result<String, ExportError>)
    ensures
        export_outcome(out) == export_target(path@, parent_exists),
{
    if is_blank_str(path) {
        return Err(ExportError::InvalidPath(String::from_str("path is empty")));
    }
    if file_name_of(path).is_none() {
        return Err(ExportError::InvalidPath(String::from_str(path)));
    }
    match parent_of(path) {
        Some(dir) => {
            if parent_exists {
                Ok(String::from_str(path))
            } else {
                Err(
                    ExportError::InvalidPath(
                        String::from_str("parent directory does not exist: ").concat(dir.as_str()),
                    ),
                )
            }
        },
        None => Ok(String::from_str(path)),
    }
}

/// A file that an export is to write: the bytes go to the temporary file,
/// which is then renamed onto the target.
#[derive(Debug, Clone, PartialEq, Eq)]
pub struct ExportWrite {
    pub target: String,
    pub temp: String,
    pub bytes: Vec<u8>,
}

/// A file to write, with its values as sequences.
pub struct ExportWriteView {
    pub target: Seq<char>,
    pub temp: Seq<char>,
    pub bytes: Seq<u8>,
}

impl View for ExportWrite {
    type V = ExportWriteView;

    open spec fn view(&self) -> ExportWriteView {
        ExportWriteView { target: self.target@, temp: self.temp@, bytes: self.bytes@ }
    }
}

/// The write of `text` to `path` through a temporary file beside it.
pub open spec fn planned_write(path: Seq<char>, text: Seq<char>) -> Result<
    ExportWriteView,
    ExportErrorView,
> {
    match parent(path) {
        None => Err(ExportErrorView::InvalidPath(path)),
        Some(dir) => match file_name(path) {
            None => Err(ExportErrorView::InvalidPath(path)),
            Some(name) => Ok(
                ExportWriteView {
                    target: path,
                    temp: join(dir, "."@ + name + ".tmp"@),
                    bytes: encode_utf8(text),
                },
            ),
        },
    }
}

/// Plans the write of `text` to `path`: through the temporary file `.`, the
/// file name and `.tmp`, beside the target. Fails with `InvalidPath` when the
/// path has no parent or no file name.
pub fn plan_write(path: &str, text: &str) -> (out: Result<ExportWrite, ExportError>)
    ensures
        export_outcome(out) == planned_write(path@, text@),
{
    let dir = match parent_of(path) {
        None => {
            return Err(ExportError::InvalidPath(String::from_str(path)));
        },
        Some(d) => d,
    };
    let name = match file_name_of(path) {
        None => {
            return Err(ExportError::InvalidPath(String::from_str(path)));
        },
        Some(n) => n,
    };
    let temp_name = String::from_str(".").concat(name.as_str()).concat(".tmp");
    Ok(
        ExportWrite {
            target: String::from_str(path),
            temp: join_path(dir.as_str(), temp_name.as_str()),
            bytes: text.as_bytes_vec(),
        },
    )
}

/// The export of the markdown `content` as HTML to `path`.
pub open spec fn html_export(path: Seq<char>, content: Seq<char>, parent_exists: bool) -> Result<
    ExportWriteView,
    ExportErrorView,
> {
    match export_target(path, parent_exists) {
        Err(e) => Err(e),
        Ok(target) => planned_write(target, rendered_html(content)),
    }
}

/// Decides on exporting the markdown `content` as HTML to `path`: the HTML
/// that renders it is to be written there. `parent_exists` tells whether the
/// parent of the path exists. Fails as `normalize_target` does.
pub fn export_html(path: &str, content: &str, parent_exists: bool) -> (out: Result<
    ExportWrite,
    ExportError,
>)
    ensures
        export_outcome(out) == html_export(path@, content@, parent_exists),
{
    match normalize_target(path, parent_exists) {
        Err(e) => Err(e),
        Ok(target) => {
            let html = render_html(content);
            plan_write(target.as_str(), html.as_str())
        },
    }
}

/// What an export reports once `write` went through: the target and the
/// count of bytes.
pub fn complete_export(write: &ExportWrite) -> (out: ExportResponse)
    ensures
        out@ == (ExportedView {
            output_path: write@.target,
            bytes_written: write@.bytes.len() as u64,
        }),
{
    ExportResponse { output_path: write.target.clone(), bytes_written: write.bytes.len() as u64 }
}

/// An export as PDF: the page of HTML that the converter reads, the target
/// that it writes, and the HTML to write if it cannot be used.
#[derive(Debug, Clone, PartialEq, Eq)]
pub struct PdfExport {
    pub target: String,
    pub page: ExportWrite,
    pub fallback: ExportWrite,
}

/// An export as PDF with its values as sequences.
pub struct PdfExportView {
    pub target: Seq<char>,
    pub page: ExportWriteView,
    pub fallback: ExportWriteView,
}

impl View for PdfExport {
    type V = PdfExportView;

    open spec fn view(&self) -> PdfExportView {
        PdfExportView { target: self.target@, page: self.page@, fallback: self.fallback@ }
    }
}

/// The export of the markdown `content` as PDF to `path`.
pub open spec fn pdf_export(path: Seq<char>, content: Seq<char>, parent_exists: bool) -> Result<
    PdfExportView,
    ExportErrorView,
> {
    match export_target(path, parent_exists) {
        Err(e) => Err(e),
        Ok(target) => {
            let html = rendered_html(content);
            match planned_write(with_extension(target, "ferrumnote-export.html"@), html) {
                Err(e) => Err(e),
                Ok(page) => match planned_write(with_extension(target, "fallback.html"@), html) {
                    Err(e) => Err(e),
                    Ok(fallback) => Ok(
                        PdfExportView { target: target, page: page, fallback: fallback },
                    ),
                },
            }
        },
    }
}

/// Decides on exporting the markdown `content` as PDF to `path`. The HTML
/// that renders it is to be written as a page beside the target, with the
/// extension `ferrumnote-export.html`, for the converter to read; if the
/// converter cannot be used the same HTML is to be written with the extension
/// `fallback.html`. `parent_exists` tells whether the parent of the path
/// exists. Fails as `normalize_target` does.
pub fn export_pdf(path: &str, content: &str, parent_exists: bool) -> (out: Result<
    PdfExport,
    ExportError,
>)
    ensures
        export_outcome(out) == pdf_export(path@, content@, parent_exists),
{
    let target = match normalize_target(path, parent_exists) {
        Err(e) => {
            return Err(e);
        },
        Ok(t) => t,
    };
    let html = render_html(content);
    let page_path = path_with_extension(target.as_str(), "ferrumnote-export.html");
    let page = match plan_write(page_path.as_str(), html.as_str()) {
        Err(e) => {
            return Err(e);
        },
        Ok(w) => w,
    };
    let fallback_path = path_with_extension(target.as_str(), "fallback.html");
    let fallback = match plan_write(fallback_path.as_str(), html.as_str()) {
        Err(e) => {
            return Err(e);
        },
        Ok(w) => w,
    };
    Ok(PdfExport { target, page, fallback })
}

/// What an export as PDF reports: the target and its size where the
/// converter wrote it, the fallback and its count of bytes where it did not.
pub open spec fn pdf_report(plan: PdfExportView, converted: Option<u64>) -> ExportedView {
    match converted {
        Some(size) => ExportedView { output_path: plan.target, bytes_written: size },
        None => ExportedView {
            output_path: plan.fallback.target,
            bytes_written: plan.fallback.bytes.len() as u64,
        },
    }
}

/// What an export as PDF reports in the end. `converted` is the size of the
/// target where the converter succeeded; where it did not, the fallback was
/// written.
pub fn complete_pdf(plan: &PdfExport, converted: Option<u64>) -> (out: ExportResponse)
    ensures
        out@ == pdf_report(plan@, converted),
{
    match converted {
        Some(size) => ExportResponse { output_path: plan.target.clone(), bytes_written: size },
        None => complete_export(&plan.fallback),
    }
}

} // verus!
