//! The images of a page: how a reference found in the markup becomes a
//! fetchable descriptor, and how a settled fetch becomes an image.

use crate::bindings::base64_decoded;
use crate::bindings::decode_base64;
use crate::bindings::join_url;
use crate::bindings::joined_url;
use crate::bindings::parse_url;
use crate::bindings::parsed_url;
use crate::bindings::path_segments;
use crate::bindings::select_attribute;
use crate::bindings::selected_attribute;
use crate::bindings::url_path_segments;
use crate::text::before;
use crate::text::chars_of;
use crate::text::cut_before;
use crate::text::ends_with;
use crate::text::find_char;
use crate::text::first_token;
use crate::text::first_token_bounds;
use crate::text::is_whitespace;
use crate::text::lemma_first_token_is_a_word;
use crate::text::split_on;
use crate::text::split_once;
use crate::text::starts_with;
use vstd::prelude::*;
use vstd::slice::*;
use vstd::string::*;

verus! {

/// A fetched or decoded image: its bytes and the file name derived for it.
#[derive(Debug, Clone, PartialEq, Eq)]
pub struct Image {
    pub image_bytes: Vec<u8>,
    pub filename: String,
}

/// What an `Image` holds.
pub struct ImageView {
    pub image_bytes: Seq<u8>,
    pub filename: Seq<char>,
}

impl View for Image {
    type V = ImageView;

    open spec fn view(&self) -> ImageView {
        ImageView { image_bytes: self.image_bytes@, filename: self.filename@ }
    }
}

impl DeepView for Image {
    type V = ImageView;

    open spec fn deep_view(&self) -> ImageView {
        self@
    }
}

/// Why an image could not be had.
#[derive(Debug, PartialEq, Eq)]
pub enum ImagesError {
    /// The base address, or an address made from it, is no URL.
    UrlError(url::ParseError),
    /// The request did not come back with a response; the text says why.
    ReqwestError(String),
    /// The response carried this status, which is not a 2xx.
    HttpStatusError(u16),
    /// The body of an inline payload is not standard Base64.
    Base64Error(base64::DecodeError),
    /// An inline payload holds no comma between metadata and body.
    Base24CommaError,
    /// A file or directory could not be written; the text says why.
    IOError(String),
    /// No entry of a candidate list names an image.
    SrcsetError,
}

/// An `ImagesError` without what the outside crates report inside it.
pub enum ImagesErrorView {
    UrlError,
    ReqwestError(Seq<char>),
    HttpStatusError(u16),
    Base64Error,
    Base24CommaError,
    IOError(Seq<char>),
    SrcsetError,
}

impl View for ImagesError {
    type V = ImagesErrorView;

    open spec fn view(&self) -> ImagesErrorView {
        match *self {
            ImagesError::UrlError(_) => ImagesErrorView::UrlError,
            ImagesError::ReqwestError(message) => ImagesErrorView::ReqwestError(message@),
            ImagesError::HttpStatusError(status) => ImagesErrorView::HttpStatusError(status),
            ImagesError::Base64Error(_) => ImagesErrorView::Base64Error,
            ImagesError::Base24CommaError => ImagesErrorView::Base24CommaError,
            ImagesError::IOError(message) => ImagesErrorView::IOError(message@),
            ImagesError::SrcsetError => ImagesErrorView::SrcsetError,
        }
    }
}

/// The view of a result: the view of what it holds.
pub open spec fn result_view<T: View, E: View>(r: Result<T, E>) -> Result<T::V, E::V> {
    match r {
        Ok(value) => Ok(value@),
        Err(error) => Err(error@),
    }
}

/// Whether `path` ends in `.jpg`, `.jpeg`, `.png` or `.webp`.
pub open spec fn has_image_extension(path: Seq<char>) -> bool {
    ||| ".jpg"@.is_suffix_of(path)
    ||| ".jpeg"@.is_suffix_of(path)
    ||| ".png"@.is_suffix_of(path)
    ||| ".webp"@.is_suffix_of(path)
}

/// The path of a candidate: what stands before its first `?` or `#`.
pub open spec fn candidate_path(url: Seq<char>) -> Seq<char> {
    before(before(url, '#'), '?')
}

/// The candidate URL of one entry of a candidate list: its first
/// whitespace-delimited token, if the path of that token names an image.
/// The candidate is the whole token, with what follows its path.
pub open spec fn image_candidate(entry: Seq<char>) -> Option<Seq<char>> {
    match first_token(entry) {
        Some(url) => if has_image_extension(candidate_path(url)) {
            Some(url)
        } else {
            None
        },
        None => None,
    }
}

/// The candidate of the last of `entries` that has one.
pub open spec fn last_image_candidate(entries: Seq<Seq<char>>) -> Option<Seq<char>>
    decreases entries.len(),
{
    if entries.len() == 0 {
        None
    } else {
        match image_candidate(entries.last()) {
            Some(url) => Some(url),
            None => last_image_candidate(entries.drop_last()),
        }
    }
}

/// The URL chosen from a candidate list: of its comma-separated entries, the
/// last whose first token has a path that names an image. Lists are taken to run from the
/// smallest image to the largest, so the last is the best; nothing checks
/// that they do.
pub open spec fn last_image_url(srcset: Seq<char>) -> Option<Seq<char>> {
    last_image_candidate(split_on(srcset, ','))
}

/// `first` if it is there, else `second`.
pub open spec fn or_else(first: Option<Seq<char>>, second: Option<Seq<char>>) -> Option<
    Seq<char>,
> {
    if first is Some {
        first
    } else {
        second
    }
}

/// An entry put before a list yields to every candidate of the list.
pub proof fn lemma_last_image_candidate_prepend(entry: Seq<char>, entries: Seq<Seq<char>>)
    ensures
        last_image_candidate(seq![entry] + entries) == or_else(
            last_image_candidate(entries),
            image_candidate(entry),
        ),
    decreases entries.len(),
{
    let all = seq![entry] + entries;
    if entries.len() == 0 {
        assert(all.drop_last() =~= Seq::<Seq<char>>::empty());
    } else {
        assert(all.last() == entries.last());
        assert(all.drop_last() =~= seq![entry] + entries.drop_last());
        lemma_last_image_candidate_prepend(entry, entries.drop_last());
    }
}

/// Whether the entry at position `i` holds the candidate `url` and no
/// entry after it holds any.
pub open spec fn is_last_candidate_at(entries: Seq<Seq<char>>, i: int, url: Seq<char>) -> bool {
    &&& 0 <= i < entries.len()
    &&& image_candidate(entries[i]) == Some(url)
    &&& forall|j: int| i < j < entries.len() ==> image_candidate(#[trigger] entries[j]) is None
}

/// The chosen candidate is the candidate of an entry after which no entry
/// has one; none is chosen only where no entry has one.
pub proof fn lemma_last_image_candidate(entries: Seq<Seq<char>>)
    ensures
        match last_image_candidate(entries) {
            Some(url) => exists|i: int| is_last_candidate_at(entries, i, url),
            None => forall|i: int|
                0 <= i < entries.len() ==> image_candidate(#[trigger] entries[i]) is None,
        },
    decreases entries.len(),
{
    if entries.len() > 0 {
        let rest = entries.drop_last();
        match image_candidate(entries.last()) {
            Some(url) => {
                assert(is_last_candidate_at(entries, entries.len() - 1, url));
            },
            None => {
                lemma_last_image_candidate(rest);
                match last_image_candidate(rest) {
                    Some(url) => {
                        let i = choose|i: int| is_last_candidate_at(rest, i, url);
                        assert(entries[i] == rest[i]);
                        assert forall|j: int| i < j < entries.len() implies image_candidate(
                            #[trigger] entries[j],
                        ) is None by {
                            if j < rest.len() {
                                assert(entries[j] == rest[j]);
                            }
                        }
                        assert(is_last_candidate_at(entries, i, url));
                    },
                    None => {
                        assert forall|i: int| 0 <= i < entries.len() implies image_candidate(
                            #[trigger] entries[i],
                        ) is None by {
                            if i < rest.len() {
                                assert(entries[i] == rest[i]);
                            }
                        }
                    },
                }
            },
        }
    }
}

/// The URL chosen from a candidate list has a path that names an image,
/// and is a word: it is not empty and holds no whitespace.
pub proof fn lemma_last_image_url_names_an_image(srcset: Seq<char>)
    ensures
        last_image_url(srcset) matches Some(url) ==> {
            &&& has_image_extension(candidate_path(url))
            &&& url.len() > 0
            &&& forall|k: int| 0 <= k < url.len() ==> !is_whitespace(url[k])
        },
{
    let entries = split_on(srcset, ',');
    lemma_last_image_candidate(entries);
    if last_image_url(srcset) is Some {
        let url = last_image_url(srcset)->0;
        let i = choose|i: int| is_last_candidate_at(entries, i, url);
        lemma_first_token_is_a_word(entries[i]);
    }
}

/// Whether the path of the candidate `url` ends in one of the image
/// extensions.
pub fn names_image(url: &[char]) -> (b: bool)
    ensures
        b == has_image_extension(candidate_path(url@)),
{
    let path = cut_before(cut_before(url, '#'), '?');
    let jpg = chars_of(".jpg");
    let jpeg = chars_of(".jpeg");
    let png = chars_of(".png");
    let webp = chars_of(".webp");
    ends_with(path, jpg.as_slice()) || ends_with(path, jpeg.as_slice()) || ends_with(
        path,
        png.as_slice(),
    ) || ends_with(path, webp.as_slice())
}

impl Image {
    /// Chooses the URL of a candidate list, as `last_image_url` defines it.
    pub fn extract_last_image_url(srcset: &str) -> (r: Option<&str>)
        ensures
            match r {
                Some(url) => last_image_url(srcset@) == Some(url@),
                None => last_image_url(srcset@) is None,
            },
    {
        let chars = chars_of(srcset);
        let all: &[char] = chars.as_slice();
        let n: usize = all.len();
        let mut start: usize = 0;
        let mut best: Option<(usize, usize)> = None;
        let mut done: bool = false;
        assert(all@.skip(0) =~= all@);
        while !done
            invariant
                all@ == srcset@,
                n == all@.len(),
                start <= n,
                best matches Some((from, to)) ==> from <= to <= n,
                last_image_url(srcset@) == if done {
                    chosen(all@, best)
                } else {
                    or_else(
                        last_image_candidate(split_on(all@.skip(start as int), ',')),
                        chosen(all@, best),
                    )
                },
            decreases
                n - start + if done {
                    0int
                } else {
                    1int
                },
        {
            let rest = slice_subrange(all, start, n);
            let found = find_char(rest, ',');
            proof {
                rest@.index_of_first_ensures(',');
            }
            let end: usize = match found {
                Some(i) => start + i,
                None => n,
            };
            let entry = slice_subrange(all, start, end);
            proof {
                assert(rest@ == all@.skip(start as int));
                if found is Some {
                    let i = found->0 as int;
                    assert(entry@ =~= rest@.take(i));
                    assert(rest@.skip(i + 1) =~= all@.skip(end + 1));
                    lemma_last_image_candidate_prepend(entry@, split_on(rest@.skip(i + 1), ','));
                } else {
                    assert(entry@ =~= rest@);
                    lemma_last_image_candidate_prepend(entry@, Seq::empty());
                    assert(seq![entry@] + Seq::<Seq<char>>::empty() =~= seq![entry@]);
                }
            }
            match first_token_bounds(entry) {
                Some((from, to)) => {
                    let token = slice_subrange(entry, from, to);
                    if names_image(token) {
                        best = Some((start + from, start + to));
                        assert(all@.subrange(start + from, start + to) =~= token@);
                    }
                },
                None => {},
            }
            if found.is_some() {
                start = end + 1;
            } else {
                done = true;
            }
        }
        match best {
            Some((from, to)) => Some(srcset.substring_char(from, to)),
            None => None,
        }
    }
}

/// The characters of `s` that a pair of bounds picks out, if there is a pair.
pub open spec fn chosen(s: Seq<char>, bounds: Option<(usize, usize)>) -> Option<Seq<char>> {
    match bounds {
        Some((from, to)) => Some(s.subrange(from as int, to as int)),
        None => None,
    }
}

/// The MIME subtype that the metadata of an inline payload names. The
/// metadata reads `type/subtype;parameters`: the subtype is what stands
/// between the first `/` and the next `/` or `;`. Where the part before the
/// first `;` holds no `/`, the subtype is `img`.
pub open spec fn mime_subtype(metadata: Seq<char>) -> Seq<char> {
    let head = match metadata.index_of_first(';') {
        Some(i) => metadata.take(i),
        None => metadata,
    };
    match head.index_of_first('/') {
        Some(i) => {
            let tail = head.skip(i + 1);
            match tail.index_of_first('/') {
                Some(j) => tail.take(j),
                None => tail,
            }
        },
        None => "img"@,
    }
}

/// The file name of an inline image: `inline.` and the subtype.
pub open spec fn inline_filename(metadata: Seq<char>) -> Seq<char> {
    "inline."@ + mime_subtype(metadata)
}

/// What decoding the inline payload `src` gives. The payload is split at
/// its first comma into metadata and body; the body is standard Base64.
pub open spec fn inline_image(src: Seq<char>) -> Result<ImageView, ImagesErrorView> {
    match split_once(src, ',') {
        Some((metadata, body)) => match base64_decoded(body) {
            Some(bytes) => Ok(
                ImageView { image_bytes: bytes, filename: inline_filename(metadata) },
            ),
            None => Err(ImagesErrorView::Base64Error),
        },
        None => Err(ImagesErrorView::Base24CommaError),
    }
}

/// Where the subtype stands in `metadata`; `None` where it names none.
fn subtype_bounds(metadata: &[char]) -> (r: Option<(usize, usize)>)
    ensures
        match r {
            Some((from, to)) => from <= to <= metadata.len() && mime_subtype(metadata@)
                == metadata@.subrange(from as int, to as int),
            None => mime_subtype(metadata@) == "img"@,
        },
{
    let semicolon = find_char(metadata, ';');
    let head_end: usize = match semicolon {
        Some(i) => i,
        None => metadata.len(),
    };
    proof {
        metadata@.index_of_first_ensures(';');
    }
    let head = slice_subrange(metadata, 0, head_end);
    assert(head@ =~= if semicolon is Some {
        metadata@.take(head_end as int)
    } else {
        metadata@
    });
    match find_char(head, '/') {
        Some(i) => {
            proof {
                head@.index_of_first_ensures('/');
            }
            let tail = slice_subrange(head, i + 1, head_end);
            let slash = find_char(tail, '/');
            proof {
                tail@.index_of_first_ensures('/');
            }
            let to: usize = match slash {
                Some(j) => i + 1 + j,
                None => head_end,
            };
            assert(tail@ =~= head@.skip(i + 1));
            assert(metadata@.subrange(i + 1, to as int) =~= if slash is Some {
                tail@.take(slash->0 as int)
            } else {
                tail@
            });
            Some((i + 1, to))
        },
        None => None,
    }
}

impl Image {
    /// Makes the image of an inline payload from its metadata and from what
    /// decoding its body gave.
    pub fn from_decoded(metadata: &str, decoded: Result<Vec<u8>, base64::DecodeError>) -> (r:
        Result<Image, ImagesError>)
        ensures
            match decoded {
                Ok(bytes) => r is Ok && r->Ok_0.image_bytes == bytes && r->Ok_0.filename@
                    == inline_filename(metadata@),
                Err(error) => r == Err::<Image, ImagesError>(ImagesError::Base64Error(error)),
            },
    {
        match decoded {
            Ok(bytes) => {
                let chars = chars_of(metadata);
                let mut filename = String::from_str("inline.");
                match subtype_bounds(chars.as_slice()) {
                    Some((from, to)) => filename.append(metadata.substring_char(from, to)),
                    None => filename.append("img"),
                }
                Ok(Image { image_bytes: bytes, filename })
            },
            Err(error) => Err(ImagesError::Base64Error(error)),
        }
    }

    /// Decodes an inline payload (`data:image/png;base64,...`) into an image.
    pub fn parse_data_url(src: &str) -> (r: Result<Image, ImagesError>)
        ensures
            result_view(r) == inline_image(src@),
    {
        let chars = chars_of(src);
        let n: usize = chars.len();
        match find_char(chars.as_slice(), ',') {
            Some(i) => {
                proof {
                    chars@.index_of_first_ensures(',');
                }
                let metadata = src.substring_char(0, i);
                let body = src.substring_char(i + 1, n);
                Image::from_decoded(metadata, decode_base64(body))
            },
            None => Err(ImagesError::Base24CommaError),
        }
    }
}

/// A raw image reference as the markup holds it, with the kind it was
/// classified as. The kind is decided once, here, and read ever after.
#[derive(Debug, Clone, PartialEq, Eq)]
pub enum ImageReference {
    /// A source attribute that carries the image itself.
    InlineData(String),
    /// A source attribute that holds an address, absolute or relative.
    AbsoluteOrRelativeUrl(String),
    /// A responsive candidate list.
    SrcsetCandidateList(String),
}

/// What an `ImageReference` holds.
pub enum ImageReferenceView {
    InlineData(Seq<char>),
    AbsoluteOrRelativeUrl(Seq<char>),
    SrcsetCandidateList(Seq<char>),
}

impl View for ImageReference {
    type V = ImageReferenceView;

    open spec fn view(&self) -> ImageReferenceView {
        match *self {
            ImageReference::InlineData(payload) => ImageReferenceView::InlineData(payload@),
            ImageReference::AbsoluteOrRelativeUrl(src) => ImageReferenceView::AbsoluteOrRelativeUrl(
                src@,
            ),
            ImageReference::SrcsetCandidateList(list) => ImageReferenceView::SrcsetCandidateList(
                list@,
            ),
        }
    }
}

impl DeepView for ImageReference {
    type V = ImageReferenceView;

    open spec fn deep_view(&self) -> ImageReferenceView {
        self@
    }
}

/// A fetch instruction: what has to be done to have the image.
#[derive(Debug, Clone, PartialEq, Eq)]
pub enum ResolvedDescriptor {
    /// Decode this payload; nothing is requested.
    DecodeInline(String),
    /// Request this absolute URL.
    Fetch(String),
}

/// What a `ResolvedDescriptor` holds.
pub enum ResolvedDescriptorView {
    DecodeInline(Seq<char>),
    Fetch(Seq<char>),
}

impl View for ResolvedDescriptor {
    type V = ResolvedDescriptorView;

    open spec fn view(&self) -> ResolvedDescriptorView {
        match *self {
            ResolvedDescriptor::DecodeInline(payload) => ResolvedDescriptorView::DecodeInline(
                payload@,
            ),
            ResolvedDescriptor::Fetch(url) => ResolvedDescriptorView::Fetch(url@),
        }
    }
}

/// The kind of a source attribute: inline where it begins with `data:image`,
/// an address otherwise.
pub open spec fn classified(src: Seq<char>) -> ImageReferenceView {
    if "data:image"@.is_prefix_of(src) {
        ImageReferenceView::InlineData(src)
    } else {
        ImageReferenceView::AbsoluteOrRelativeUrl(src)
    }
}

/// The descriptor for an address that was read, the error for one that was
/// not.
pub open spec fn fetch_of(url: Option<Seq<char>>) -> Result<
    ResolvedDescriptorView,
    ImagesErrorView,
> {
    match url {
        Some(url) => Ok(ResolvedDescriptorView::Fetch(url)),
        None => Err(ImagesErrorView::UrlError),
    }
}

/// What resolving `reference` on a page at `base` gives.
///
/// An inline payload is kept as it is. An address is joined against `base`.
/// A candidate list yields its last image candidate, which must be an
/// absolute URL by itself.
pub open spec fn resolution(reference: ImageReferenceView, base: Seq<char>) -> Result<
    ResolvedDescriptorView,
    ImagesErrorView,
> {
    match reference {
        ImageReferenceView::InlineData(payload) => Ok(
            ResolvedDescriptorView::DecodeInline(payload),
        ),
        ImageReferenceView::AbsoluteOrRelativeUrl(src) => fetch_of(joined_url(base, src)),
        ImageReferenceView::SrcsetCandidateList(list) => match last_image_url(list) {
            Some(candidate) => fetch_of(parsed_url(candidate)),
            None => Err(ImagesErrorView::SrcsetError),
        },
    }
}

impl ResolvedDescriptor {
    /// The descriptor for the outcome of reading or joining an address.
    pub fn from_url(outcome: Result<String, url::ParseError>) -> (r: Result<
        ResolvedDescriptor,
        ImagesError,
    >)
        ensures
            match outcome {
                Ok(url) => r == Ok::<ResolvedDescriptor, ImagesError>(
                    ResolvedDescriptor::Fetch(url),
                ),
                Err(error) => r == Err::<ResolvedDescriptor, ImagesError>(
                    ImagesError::UrlError(error),
                ),
            },
    {
        match outcome {
            Ok(url) => Ok(ResolvedDescriptor::Fetch(url)),
            Err(error) => Err(ImagesError::UrlError(error)),
        }
    }
}

impl ImageReference {
    /// Classifies the source attribute of an image element.
    pub fn from_src(src: &str) -> (r: ImageReference)
        ensures
            r@ == classified(src@),
    {
        let chars = chars_of(src);
        let prefix = chars_of("data:image");
        if starts_with(chars.as_slice(), prefix.as_slice()) {
            ImageReference::InlineData(String::from_str(src))
        } else {
            ImageReference::AbsoluteOrRelativeUrl(String::from_str(src))
        }
    }

    /// Takes up the candidate-list attribute of an image element.
    pub fn from_srcset(srcset: &str) -> (r: ImageReference)
        ensures
            r@ == ImageReferenceView::SrcsetCandidateList(srcset@),
    {
        ImageReference::SrcsetCandidateList(String::from_str(srcset))
    }

    /// Resolves the reference on a page at `base_url`.
    pub fn resolve(&self, base_url: &str) -> (r: Result<ResolvedDescriptor, ImagesError>)
        ensures
            result_view(r) == resolution(self@, base_url@),
    {
        match self {
            ImageReference::InlineData(payload) => Ok(
                ResolvedDescriptor::DecodeInline(payload.clone()),
            ),
            ImageReference::AbsoluteOrRelativeUrl(src) => ResolvedDescriptor::from_url(
                join_url(base_url, src.as_str()),
            ),
            ImageReference::SrcsetCandidateList(list) => match Image::extract_last_image_url(
                list.as_str(),
            ) {
                Some(candidate) => ResolvedDescriptor::from_url(parse_url(candidate)),
                None => Err(ImagesError::SrcsetError),
            },
        }
    }
}

impl Image {
    /// Resolves the source attribute `src` of an image on a page at
    /// `base_url`.
    pub fn handle_image_src(src: &str, base_url: &str) -> (r: Result<
        ResolvedDescriptor,
        ImagesError,
    >)
        ensures
            result_view(r) == resolution(classified(src@), base_url@),
    {
        ImageReference::from_src(src).resolve(base_url)
    }

    /// Resolves the candidate list `srcset` of an image. The candidate is
    /// read as an absolute URL: no base address enters.
    pub fn handle_image_srcset(srcset: &str) -> (r: Result<ResolvedDescriptor, ImagesError>)
        ensures
            result_view(r) == match last_image_url(srcset@) {
                Some(candidate) => fetch_of(parsed_url(candidate)),
                None => Err(ImagesErrorView::SrcsetError),
            },
    {
        ImageReference::from_srcset(srcset).resolve("")
    }
}

/// The last of `segments` that is not empty.
pub open spec fn last_non_empty(segments: Seq<Seq<char>>) -> Option<Seq<char>>
    decreases segments.len(),
{
    if segments.len() == 0 {
        None
    } else if segments.last().len() > 0 {
        Some(segments.last())
    } else {
        last_non_empty(segments.drop_last())
    }
}

/// The file name for an image fetched from a URL with these path segments:
/// the last segment that is not empty, and `image` where there is none.
pub open spec fn filename_of(segments: Option<Seq<Seq<char>>>) -> Seq<char> {
    match segments {
        Some(segments) => match last_non_empty(segments) {
            Some(name) => name,
            None => "image"@,
        },
        None => "image"@,
    }
}

/// Whether `status` is a 2xx.
pub open spec fn is_success(status: u16) -> bool {
    200 <= status <= 299
}

/// Decides whether a response with this status is taken: only a 2xx is.
pub fn status_is_success(status: u16) -> (b: bool)
    ensures
        b == is_success(status),
{
    200 <= status && status <= 299
}

/// What came back for a request: the status and the whole body.
#[derive(Debug, Clone, PartialEq, Eq)]
pub struct HttpResponse {
    pub status: u16,
    pub body: Vec<u8>,
}

/// The image that a settled request for `url` gives.
pub open spec fn fetched_image(url: Seq<char>, response: Result<HttpResponse, String>) -> Result<
    ImageView,
    ImagesErrorView,
> {
    match response {
        Ok(response) => if is_success(response.status) {
            Ok(
                ImageView {
                    image_bytes: response.body@,
                    filename: filename_of(url_path_segments(url)),
                },
            )
        } else {
            Err(ImagesErrorView::HttpStatusError(response.status))
        },
        Err(message) => Err(ImagesErrorView::ReqwestError(message@)),
    }
}

impl Image {
    /// Derives the file name of a fetched image from the path segments of
    /// its URL.
    pub fn filename_from_segments(segments: Option<Vec<String>>) -> (r: String)
        ensures
            r@ == filename_of(segments.deep_view()),
    {
        match segments {
            Some(list) => {
                let ghost all = list.deep_view();
                let mut i: usize = list.len();
                assert(all.take(i as int) =~= all);
                while i > 0
                    invariant
                        i <= list.len(),
                        all == list.deep_view(),
                        segments.deep_view() == Some(all),
                        last_non_empty(all) == last_non_empty(all.take(i as int)),
                    decreases i,
                {
                    assert(all.take(i as int).last() == list@[i - 1]@);
                    assert(all.take(i as int).drop_last() =~= all.take(i - 1));
                    if !list[i - 1].as_str().is_empty() {
                        return list[i - 1].clone();
                    }
                    i -= 1;
                }
                String::from_str("image")
            },
            None => String::from_str("image"),
        }
    }

    /// Derives the file name of an image fetched from `url`.
    pub fn filename_for(url: &str) -> (r: String)
        ensures
            r@ == filename_of(url_path_segments(url@)),
    {
        Image::filename_from_segments(path_segments(url))
    }

    /// Settles the request for `img_url`: makes the image of a response
    /// with a 2xx status, and says why there is none otherwise.
    pub fn fetch_image(img_url: &str, response: Result<HttpResponse, String>) -> (r: Result<
        Image,
        ImagesError,
    >)
        ensures
            result_view(r) == fetched_image(img_url@, response),
            response matches Ok(received) ==> (is_success(received.status) ==> r is Ok
                && r->Ok_0.image_bytes == received.body),
            response matches Err(message) ==> r == Err::<Image, ImagesError>(
                ImagesError::ReqwestError(message),
            ),
    {
        match response {
            Ok(response) => {
                if status_is_success(response.status) {
                    Ok(
                        Image {
                            image_bytes: response.body,
                            filename: Image::filename_for(img_url),
                        },
                    )
                } else {
                    Err(ImagesError::HttpStatusError(response.status))
                }
            },
            Err(message) => Err(ImagesError::ReqwestError(message)),
        }
    }
}

/// The images of one page, in the order in which their fetches were issued.
#[derive(Debug, Clone, PartialEq, Eq)]
pub struct Images(pub Vec<Image>);

impl View for Images {
    type V = Seq<ImageView>;

    open spec fn view(&self) -> Seq<ImageView> {
        self.0.deep_view()
    }
}

/// The values that are there, in order.
pub open spec fn present(values: Seq<Option<Seq<char>>>) -> Seq<Seq<char>> {
    values.filter_map(|value: Option<Seq<char>>| value)
}

/// The reference that an attribute value makes: a candidate list as it
/// stands, a source by its kind.
pub open spec fn reference_for(value: Seq<char>, candidate_list: bool) -> ImageReferenceView {
    if candidate_list {
        ImageReferenceView::SrcsetCandidateList(value)
    } else {
        classified(value)
    }
}

/// The references that the present values of one attribute make, in order.
pub open spec fn attribute_references(
    values: Seq<Option<Seq<char>>>,
    candidate_list: bool,
) -> Seq<ImageReferenceView> {
    present(values).map_values(|value: Seq<char>| reference_for(value, candidate_list))
}

/// The references of a page whose image elements carry these source
/// attributes and these candidate lists: one for every source, then one for
/// every list.
pub open spec fn references_of(
    sources: Seq<Option<Seq<char>>>,
    candidate_lists: Seq<Option<Seq<char>>>,
) -> Seq<ImageReferenceView> {
    attribute_references(sources, false) + attribute_references(candidate_lists, true)
}

/// Makes a reference of every value that is there.
fn references_in(values: &Vec<Option<String>>, candidate_list: bool) -> (r: Vec<ImageReference>)
    ensures
        r.deep_view() == attribute_references(values.deep_view(), candidate_list),
{
    let mut found: Vec<ImageReference> = Vec::new();
    let ghost all = values.deep_view();
    let ghost keep = |value: Option<Seq<char>>| value;
    let ghost make = |value: Seq<char>| reference_for(value, candidate_list);
    let mut i: usize = 0;
    assert(all.take(0).filter_map(keep) =~= Seq::empty());
    while i < values.len()
        invariant
            i <= values.len(),
            all == values.deep_view(),
            keep == |value: Option<Seq<char>>| value,
            make == |value: Seq<char>| reference_for(value, candidate_list),
            found.deep_view() =~= all.take(i as int).filter_map(keep).map_values(make),
        decreases values.len() - i,
    {
        let ghost made = found.deep_view();
        let ghost kept = all.take(i as int).filter_map(keep);
        proof {
            all.lemma_filter_map_take_succ(keep, i as int);
        }
        match &values[i] {
            Some(value) => {
                if candidate_list {
                    found.push(ImageReference::from_srcset(value.as_str()));
                } else {
                    found.push(ImageReference::from_src(value.as_str()));
                }
                assert(all[i as int] == Some(value@));
                assert(found.deep_view() =~= made.push(reference_for(value@, candidate_list)));
                assert((kept + seq![value@]).map_values(make) =~= kept.map_values(make).push(
                    reference_for(value@, candidate_list),
                ));
            },
            None => {
                assert(all[i as int] is None);
                assert(kept + Seq::<Seq<char>>::empty() =~= kept);
            },
        }
        i += 1;
    }
    assert(all.take(i as int) =~= all);
    found
}

/// For each `img` element of `html`, its attribute `attribute` if it has
/// one.
pub open spec fn img_attribute(html: Seq<char>, attribute: Seq<char>) -> Seq<Option<Seq<char>>> {
    match selected_attribute(html, "img"@, attribute) {
        Some(values) => values,
        None => Seq::empty(),
    }
}

/// The image references of the markup `html`: sources are read from `src`,
/// candidate lists from `data-srcset`.
pub open spec fn scanned_references(html: Seq<char>) -> Seq<ImageReferenceView> {
    references_of(img_attribute(html, "src"@), img_attribute(html, "data-srcset"@))
}

/// The images among settled fetches, in order; failures leave no trace.
pub open spec fn successes(outcomes: Seq<Result<Image, ImagesError>>) -> Seq<Image> {
    outcomes.filter_map(
        |outcome: Result<Image, ImagesError>|
            match outcome {
                Ok(image) => Some(image),
                Err(_) => None,
            },
    )
}

/// The number of failures among settled fetches.
pub open spec fn failure_count(outcomes: Seq<Result<Image, ImagesError>>) -> nat
    decreases outcomes.len(),
{
    if outcomes.len() == 0 {
        0
    } else {
        failure_count(outcomes.drop_last()) + if outcomes.last() is Err {
            1nat
        } else {
            0nat
        }
    }
}

impl Images {
    /// What every request for an image says of its sender.
    pub const USER_AGENT: &'static str =
        "Mozilla/5.0 (X11; Linux x86_64) AppleWebKit/537.36 (KHTML, like Gecko) Chrome/115.0.0.0 Safari/537.36";

    /// Makes the references of a page from the attributes of its image
    /// elements.
    pub fn references(sources: &Vec<Option<String>>, candidate_lists: &Vec<Option<String>>) -> (r:
        Vec<ImageReference>)
        ensures
            r.deep_view() == references_of(sources.deep_view(), candidate_lists.deep_view()),
    {
        let mut found = references_in(sources, false);
        let mut lists = references_in(candidate_lists, true);
        let ghost first = found.deep_view();
        let ghost second = lists.deep_view();
        found.append(&mut lists);
        assert(found.deep_view() =~= first + second);
        found
    }

    /// Finds the image references of the markup `html`.
    pub fn scan(html: &str) -> (r: Vec<ImageReference>)
        ensures
            r.deep_view() == scanned_references(html@),
    {
        let sources = match select_attribute(html, "img", "src") {
            Some(values) => values,
            None => Vec::new(),
        };
        assert(sources.deep_view() =~= img_attribute(html@, "src"@));
        let candidate_lists = match select_attribute(html, "img", "data-srcset") {
            Some(values) => values,
            None => Vec::new(),
        };
        assert(candidate_lists.deep_view() =~= img_attribute(html@, "data-srcset"@));
        Images::references(&sources, &candidate_lists)
    }

    /// Plans the fetches for a page with markup `html` at `base_url`: one
    /// task for each image reference, holding its descriptor or the reason
    /// why it has none. A base address that is no URL fails the whole plan.
    pub fn plan(html: &str, base_url: &str) -> (r: Result<
        Vec<Result<ResolvedDescriptor, ImagesError>>,
        ImagesError,
    >)
        ensures
            match r {
                Ok(tasks) => {
                    &&& parsed_url(base_url@) is Some
                    &&& tasks.len() == scanned_references(html@).len()
                    &&& forall|i: int|
                        0 <= i < tasks.len() ==> result_view(#[trigger] tasks[i]) == resolution(
                            scanned_references(html@)[i],
                            base_url@,
                        )
                },
                Err(error) => parsed_url(base_url@) is None && error@ == ImagesErrorView::UrlError,
            },
    {
        match parse_url(base_url) {
            Ok(_) => {
                let references = Images::scan(html);
                let mut tasks: Vec<Result<ResolvedDescriptor, ImagesError>> = Vec::new();
                let mut i: usize = 0;
                while i < references.len()
                    invariant
                        i <= references.len(),
                        tasks.len() == i,
                        forall|k: int|
                            0 <= k < i ==> result_view(#[trigger] tasks[k]) == resolution(
                                references[k]@,
                                base_url@,
                            ),
                    decreases references.len() - i,
                {
                    tasks.push(references[i].resolve(base_url));
                    i += 1;
                }
                Ok(tasks)
            },
            Err(error) => Err(ImagesError::UrlError(error)),
        }
    }

    /// Gathers the images of settled fetches. A fetch that failed is left
    /// out and fails nothing else.
    pub fn from(outcomes: Vec<Result<Image, ImagesError>>) -> (r: Images)
        ensures
            r.0@ == successes(outcomes@),
            r@.len() + failure_count(outcomes@) == outcomes@.len(),
            r@.len() <= outcomes@.len(),
    {
        proof {
            lemma_successes_and_failures(outcomes@);
        }
        let mut images: Vec<Image> = Vec::new();
        let ghost keep = |outcome: Result<Image, ImagesError>|
            match outcome {
                Ok(image) => Some(image),
                Err(_) => None,
            };
        assert(outcomes@.take(0).filter_map(keep) =~= Seq::empty());
        for outcome in it: outcomes
            invariant
                it.seq() == outcomes@,
                keep == |outcome: Result<Image, ImagesError>|
                    match outcome {
                        Ok(image) => Some(image),
                        Err(_) => None,
                    },
                images@ =~= outcomes@.take(it.index() as int).filter_map(keep),
        {
            proof {
                outcomes@.lemma_filter_map_take_succ(keep, it.index() as int);
            }
            match outcome {
                Ok(image) => images.push(image),
                Err(_) => {},
            }
        }
        assert(outcomes@.take(outcomes@.len() as int) =~= outcomes@);
        Images(images)
    }

    /// The number of images.
    pub fn len(&self) -> (n: usize)
        ensures
            n == self.0.len(),
            n == self@.len(),
    {
        self.0.len()
    }
}

/// Every settled fetch is an image or a failure, never both.
pub proof fn lemma_successes_and_failures(outcomes: Seq<Result<Image, ImagesError>>)
    ensures
        successes(outcomes).len() + failure_count(outcomes) == outcomes.len(),
        successes(outcomes).len() <= outcomes.len(),
    decreases outcomes.len(),
{
    if outcomes.len() > 0 {
        lemma_successes_and_failures(outcomes.drop_last());
    }
}

/// Among settled fetches of which exactly one failed, every other one is
/// an image: one fewer than were fetched.
pub proof fn lemma_one_failure_costs_one_image(
    outcomes: Seq<Result<Image, ImagesError>>,
    failed: int,
)
    requires
        0 <= failed < outcomes.len(),
        outcomes[failed] is Err,
        forall|i: int| 0 <= i < outcomes.len() && i != failed ==> outcomes[i] is Ok,
    ensures
        successes(outcomes).len() == outcomes.len() - 1,
    decreases outcomes.len(),
{
    let rest = outcomes.drop_last();
    if failed == outcomes.len() - 1 {
        lemma_all_succeeded(rest);
    } else {
        lemma_one_failure_costs_one_image(rest, failed);
    }
}

/// Where no fetch failed, every one is an image, in the order of the
/// fetches.
pub proof fn lemma_all_succeeded(outcomes: Seq<Result<Image, ImagesError>>)
    requires
        forall|i: int| 0 <= i < outcomes.len() ==> outcomes[i] is Ok,
    ensures
        successes(outcomes).len() == outcomes.len(),
        forall|i: int| 0 <= i < outcomes.len() ==> outcomes[i] == Ok::<Image, ImagesError>(
            #[trigger] successes(outcomes)[i],
        ),
    decreases outcomes.len(),
{
    if outcomes.len() > 0 {
        lemma_all_succeeded(outcomes.drop_last());
    }
}

} // verus!
