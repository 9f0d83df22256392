//! The capture bundle: a loaded page with its converted text, its images
//! and the record that summarizes them.

use crate::images::Image;
use crate::images::ImageView;
use crate::images::Images;
use crate::images::ImagesError;
use crate::text::count_words;
use crate::text::word_count;
use vstd::prelude::*;
use vstd::string::*;
use vstd::utf8::encode_utf8;

verus! {

/// Why the converter gave no text.
#[derive(Debug, Clone, PartialEq, Eq)]
pub enum ConversionError {
    /// The converter is not there, or gave its output where no text is.
    PandocNotFound,
    /// The converter failed; the text says why.
    Failed(String),
}

/// What the converter handed back.
#[derive(Debug, Clone, PartialEq, Eq)]
pub enum ConverterOutput {
    /// It wrote a file at this path.
    ToFile(String),
    /// The converted text.
    ToBuffer(String),
    /// Converted bytes that are no text.
    ToBufferRaw(Vec<u8>),
}

/// Why a page could not be captured or written.
#[derive(Debug, PartialEq, Eq)]
pub enum WebPageError {
    /// A file or directory could not be written; the text says why.
    IO(String),
    /// The place to write to is taken: a file or directory is there.
    PathExistsError,
    /// The markup could not be converted.
    MarkdownConversionError(ConversionError),
    /// A task did not run to its end; the text says why.
    TaskFailed(String),
    /// The date of the capture could not be had; the text says why.
    TimeError(String),
    /// The images of the page could not be had.
    ImagesError(ImagesError),
    /// The browser failed; the text says why.
    AnyhowError(String),
    /// The record could not be serialized; the text says why.
    JsonConversionError(String),
}

/// A loaded page as the browser shows it: the page-loading side hands one
/// over for every capture.
#[derive(Debug, Clone, PartialEq, Eq)]
pub struct TabSnapshot {
    pub url: String,
    pub title: String,
    pub html: String,
}

/// The record that summarizes a bundle.
#[derive(Debug, Clone, PartialEq, Eq)]
pub struct InfoJson {
    pub url: String,
    pub title: String,
    pub date: String,
    pub nb_md_words: usize,
    pub nb_images: usize,
}

/// What an `InfoJson` holds.
pub struct InfoJsonView {
    pub url: Seq<char>,
    pub title: Seq<char>,
    pub date: Seq<char>,
    pub nb_md_words: nat,
    pub nb_images: nat,
}

impl View for InfoJson {
    type V = InfoJsonView;

    open spec fn view(&self) -> InfoJsonView {
        InfoJsonView {
            url: self.url@,
            title: self.title@,
            date: self.date@,
            nb_md_words: self.nb_md_words as nat,
            nb_images: self.nb_images as nat,
        }
    }
}

/// A file to write: its name within its directory, and its bytes.
#[derive(Debug, Clone, PartialEq, Eq)]
pub struct Artifact {
    pub file_name: String,
    pub contents: Vec<u8>,
}

/// What an `Artifact` holds.
pub struct ArtifactView {
    pub file_name: Seq<char>,
    pub contents: Seq<u8>,
}

impl View for Artifact {
    type V = ArtifactView;

    open spec fn view(&self) -> ArtifactView {
        ArtifactView { file_name: self.file_name@, contents: self.contents@ }
    }
}

impl DeepView for Artifact {
    type V = ArtifactView;

    open spec fn deep_view(&self) -> ArtifactView {
        self@
    }
}

/// The bundle of one captured page. It is made once, from settled
/// conversion and settled fetches, and never changed after.
#[derive(Debug)]
pub struct WebPage {
    url: String,
    title: String,
    date: String,
    html: String,
    images: Images,
    markdown: String,
    info_json: InfoJson,
}

/// What a `WebPage` holds.
pub struct WebPageView {
    pub url: Seq<char>,
    pub title: Seq<char>,
    pub date: Seq<char>,
    pub html: Seq<char>,
    pub images: Seq<ImageView>,
    pub markdown: Seq<char>,
    pub info_json: InfoJsonView,
}

/// The record that belongs to a bundle: it repeats address, title and
/// date, counts the whitespace-delimited tokens of the converted text and
/// counts the images.
pub open spec fn summary_of(page: WebPageView) -> InfoJsonView {
    InfoJsonView {
        url: page.url,
        title: page.title,
        date: page.date,
        nb_md_words: word_count(page.markdown),
        nb_images: page.images.len(),
    }
}

/// The converted text in what the converter handed back.
pub open spec fn converted_text(converted: Result<ConverterOutput, ConversionError>) -> Result<
    String,
    WebPageError,
> {
    match converted {
        Ok(ConverterOutput::ToBuffer(text)) => Ok(text),
        Ok(_) => Err(WebPageError::MarkdownConversionError(ConversionError::PandocNotFound)),
        Err(error) => Err(WebPageError::MarkdownConversionError(error)),
    }
}

impl View for WebPage {
    type V = WebPageView;

    closed spec fn view(&self) -> WebPageView {
        WebPageView {
            url: self.url@,
            title: self.title@,
            date: self.date@,
            html: self.html@,
            images: self.images@,
            markdown: self.markdown@,
            info_json: self.info_json@,
        }
    }
}

impl WebPage {
    /// The format that the converter writes.
    pub const OUTPUT_FORMAT: &'static str = "gfm-raw_html";

    /// The name of the file that holds the record.
    pub const INFO_JSON_FILE: &'static str = "informations.json";

    /// The name of the directory that holds the images.
    pub const IMAGES_DIRECTORY: &'static str = "images";

    #[verifier::type_invariant]
    spec fn summarized(self) -> bool {
        self.info_json@ == summary_of(self@)
    }

    /// Takes the converted text out of what the converter handed back.
    /// Output that is no text in a buffer counts as a converter that is
    /// not there.
    pub fn html2md(converted: Result<ConverterOutput, ConversionError>) -> (r: Result<
        String,
        WebPageError,
    >)
        ensures
            r == converted_text(converted),
    {
        match converted {
            Ok(ConverterOutput::ToBuffer(text)) => Ok(text),
            Ok(_) => Err(WebPageError::MarkdownConversionError(ConversionError::PandocNotFound)),
            Err(error) => Err(WebPageError::MarkdownConversionError(error)),
        }
    }

    /// Assembles the bundle of the page in `tab`, captured on `date`, once
    /// the conversion and every fetch have settled.
    ///
    /// A failed conversion fails the capture, and so does a failed fetch
    /// phase, in this order. Single fetches that failed are no longer seen
    /// here: `images` holds the ones that succeeded.
    pub fn from_tab(
        tab: TabSnapshot,
        date: String,
        markdown: Result<String, WebPageError>,
        images: Result<Images, ImagesError>,
    ) -> (r: Result<WebPage, WebPageError>)
        ensures
            match (markdown, images) {
                (Ok(text), Ok(found)) => {
                    &&& r is Ok
                    &&& r->Ok_0@.url == tab.url@
                    &&& r->Ok_0@.title == tab.title@
                    &&& r->Ok_0@.html == tab.html@
                    &&& r->Ok_0@.date == date@
                    &&& r->Ok_0@.markdown == text@
                    &&& r->Ok_0@.images == found@
                    &&& r->Ok_0@.info_json == summary_of(r->Ok_0@)
                },
                (Ok(_), Err(error)) => r == Err::<WebPage, WebPageError>(
                    WebPageError::ImagesError(error),
                ),
                (Err(error), _) => r == Err::<WebPage, WebPageError>(error),
            },
    {
        let text = match markdown {
            Ok(text) => text,
            Err(error) => {
                return Err(error);
            },
        };
        let found = match images {
            Ok(found) => found,
            Err(error) => {
                return Err(WebPageError::ImagesError(error));
            },
        };
        let nb_md_words: usize = count_words(text.as_str());
        let nb_images: usize = found.len();
        let info_json = InfoJson {
            url: tab.url.clone(),
            title: tab.title.clone(),
            date: date.clone(),
            nb_md_words,
            nb_images,
        };
        Ok(
            WebPage {
                url: tab.url,
                title: tab.title,
                date,
                html: tab.html,
                images: found,
                markdown: text,
                info_json,
            },
        )
    }

    /// The address of the page.
    pub fn url(&self) -> (r: &String)
        ensures
            r@ == self@.url,
    {
        &self.url
    }

    /// The title of the page.
    pub fn title(&self) -> (r: &String)
        ensures
            r@ == self@.title,
    {
        &self.title
    }

    /// The date of the capture.
    pub fn date(&self) -> (r: &String)
        ensures
            r@ == self@.date,
    {
        &self.date
    }

    /// The markup of the page.
    pub fn html(&self) -> (r: &String)
        ensures
            r@ == self@.html,
    {
        &self.html
    }

    /// The converted text.
    pub fn markdown(&self) -> (r: &String)
        ensures
            r@ == self@.markdown,
    {
        &self.markdown
    }

    /// The images that were fetched.
    pub fn images(&self) -> (r: &Images)
        ensures
            r@ == self@.images,
    {
        &self.images
    }

    /// The record of the bundle. Whatever bundle this is, its record
    /// counts the tokens of its converted text and its images.
    pub fn info_json(&self) -> (r: &InfoJson)
        ensures
            r@ == self@.info_json,
            r@ == summary_of(self@),
            r.nb_md_words == word_count(self@.markdown),
            r.nb_images == self@.images.len(),
    {
        proof {
            use_type_invariant(self);
        }
        &self.info_json
    }

    /// The file that holds the markup: `<title>.html`.
    pub fn output_html(&self) -> (r: Artifact)
        ensures
            r@.file_name == self@.title + ".html"@,
            r@.contents == encode_utf8(self@.html),
    {
        let mut file_name = self.title.clone();
        file_name.append(".html");
        Artifact { file_name, contents: self.html.as_str().as_bytes_vec() }
    }

    /// The file that holds the converted text: `<title>.md`.
    pub fn output_markdown(&self) -> (r: Artifact)
        ensures
            r@.file_name == self@.title + ".md"@,
            r@.contents == encode_utf8(self@.markdown),
    {
        let mut file_name = self.title.clone();
        file_name.append(".md");
        Artifact { file_name, contents: self.markdown.as_str().as_bytes_vec() }
    }

    /// The file that holds the page as the browser printed it:
    /// `<title>.pdf`.
    pub fn output_pdf(&self, pdf: Vec<u8>) -> (r: Artifact)
        ensures
            r@.file_name == self@.title + ".pdf"@,
            r.contents == pdf,
    {
        let mut file_name = self.title.clone();
        file_name.append(".pdf");
        Artifact { file_name, contents: pdf }
    }

    /// The file that holds the record in its serialized form `json`:
    /// `informations.json`.
    pub fn output_info_json(&self, json: &str) -> (r: Artifact)
        ensures
            r@.file_name == "informations.json"@,
            r@.contents == encode_utf8(json@),
    {
        Artifact {
            file_name: String::from_str(Self::INFO_JSON_FILE),
            contents: json.as_bytes_vec(),
        }
    }
}

impl Images {
    /// The files of the images directory: one for each image, under the
    /// name derived for it. Images that share a name share a file.
    pub fn artifacts(&self) -> (r: Vec<Artifact>)
        ensures
            r.len() == self.0.len(),
            forall|i: int|
                0 <= i < r.len() ==> (#[trigger] r[i])@ == (ArtifactView {
                    file_name: self@[i].filename,
                    contents: self@[i].image_bytes,
                }),
    {
        let mut files: Vec<Artifact> = Vec::new();
        let mut i: usize = 0;
        while i < self.0.len()
            invariant
                i <= self.0.len(),
                files.len() == i,
                forall|k: int|
                    0 <= k < i ==> (#[trigger] files[k])@ == (ArtifactView {
                        file_name: self@[k].filename,
                        contents: self@[k].image_bytes,
                    }),
            decreases self.0.len() - i,
        {
            let image: &Image = &self.0[i];
            files.push(
                Artifact { file_name: image.filename.clone(), contents: image.image_bytes.clone() },
            );
            i += 1;
        }
        files
    }
}

} // verus!
