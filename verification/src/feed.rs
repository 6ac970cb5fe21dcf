//! Building post records.
use vstd::prelude::*;
use crate::moderation::mutewords::now;
use crate::moderation::types::Timestamp;
use crate::rich_text::facet::Facet;

verus! {

/// A reference to a record: its AT URI and CID.
#[derive(Debug, Clone, PartialEq, Eq)]
pub struct StrongRef {
    pub uri: String,
    pub cid: String,
}

/// The posts a reply answers: the thread's root and the direct parent.
#[derive(Debug, Clone, PartialEq, Eq)]
pub struct ReplyRef {
    pub root: StrongRef,
    pub parent: StrongRef,
}

/// An uploaded blob: its CID, MIME type and size in bytes.
#[derive(Debug, Clone, PartialEq, Eq)]
pub struct BlobRef {
    pub cid: String,
    pub mime_type: String,
    pub size: u64,
}

/// An image embedded in a post: its alt text and its uploaded blob.
#[derive(Debug, Clone, PartialEq, Eq)]
pub struct ImageData {
    pub alt: String,
    pub image: BlobRef,
}

/// What a post record embeds.
#[derive(Debug, Clone, PartialEq, Eq)]
pub enum RecordEmbedData {
    Images(Vec<ImageData>),
    External { uri: String, title: String, description: String },
    Record(StrongRef),
}

/// A post record.
#[derive(Debug, Clone, PartialEq, Eq)]
pub struct PostRecordData {
    pub created_at: Timestamp,
    pub embed: Option<RecordEmbedData>,
    pub facets: Option<Vec<Facet>>,
    /// The values of the post's self-labels.
    pub labels: Option<Vec<String>>,
    pub langs: Option<Vec<String>>,
    pub reply: Option<ReplyRef>,
    pub tags: Option<Vec<String>>,
    pub text: String,
}

/// A builder of post records. Facets, labels and languages are kept only
/// when there is at least one.
#[derive(Debug, Clone)]
pub struct RecordBuilder {
    pub created_at: Option<Timestamp>,
    pub embed: Option<RecordEmbedData>,
    pub facets: Option<Vec<Facet>>,
    pub labels: Option<Vec<String>>,
    pub langs: Option<Vec<String>>,
    pub reply: Option<ReplyRef>,
    pub tags: Option<Vec<String>>,
    pub text: String,
}

impl RecordBuilder {
    /// A builder for a post with the given text and nothing else.
    pub fn new(text: &str) -> (r: Self)
        ensures
            r.text@ == text@,
            r.created_at is None,
            r.embed is None,
            r.facets is None,
            r.labels is None,
            r.langs is None,
            r.reply is None,
            r.tags is None,
    {
        RecordBuilder {
            created_at: None,
            embed: None,
            facets: None,
            labels: None,
            langs: None,
            reply: None,
            tags: None,
            text: text.to_owned(),
        }
    }

    /// Sets when the post was created.
    pub fn created_at(self, created_at: Timestamp) -> (r: Self)
        ensures
            r == (RecordBuilder { created_at: Some(created_at), ..self }),
    {
        RecordBuilder { created_at: Some(created_at), ..self }
    }

    /// Sets what the post embeds.
    pub fn embed(self, embed: RecordEmbedData) -> (r: Self)
        ensures
            r == (RecordBuilder { embed: Some(embed), ..self }),
    {
        RecordBuilder { embed: Some(embed), ..self }
    }

    /// Sets the post's facets; an empty list leaves them as they were.
    pub fn facets(self, facets: Vec<Facet>) -> (r: Self)
        ensures
            facets@.len() == 0 ==> r == self,
            facets@.len() > 0 ==> r == (RecordBuilder { facets: Some(facets), ..self }),
    {
        if facets.len() > 0 {
            RecordBuilder { facets: Some(facets), ..self }
        } else {
            self
        }
    }

    /// Sets the post's self-labels; an empty list leaves them as they were.
    pub fn labels(self, labels: Vec<String>) -> (r: Self)
        ensures
            labels@.len() == 0 ==> r == self,
            labels@.len() > 0 ==> r == (RecordBuilder { labels: Some(labels), ..self }),
    {
        if labels.len() > 0 {
            RecordBuilder { labels: Some(labels), ..self }
        } else {
            self
        }
    }

    /// Sets the post's languages; an empty list leaves them as they were.
    pub fn langs(self, langs: Vec<String>) -> (r: Self)
        ensures
            langs@.len() == 0 ==> r == self,
            langs@.len() > 0 ==> r == (RecordBuilder { langs: Some(langs), ..self }),
    {
        if langs.len() > 0 {
            RecordBuilder { langs: Some(langs), ..self }
        } else {
            self
        }
    }

    /// Sets the posts this one replies to.
    pub fn reply(self, reply: ReplyRef) -> (r: Self)
        ensures
            r == (RecordBuilder { reply: Some(reply), ..self }),
    {
        RecordBuilder { reply: Some(reply), ..self }
    }

    /// Sets the post's tags (an empty list too).
    pub fn tags(self, tags: Vec<String>) -> (r: Self)
        ensures
            r == (RecordBuilder { tags: Some(tags), ..self }),
    {
        RecordBuilder { tags: Some(tags), ..self }
    }

    /// The record, created at the set instant, or at `now` if none is set.
    pub fn build_at(self, now: Timestamp) -> (r: PostRecordData)
        ensures
            r.created_at == (match self.created_at {
                Some(t) => t,
                None => now,
            }),
            r.embed == self.embed,
            r.facets == self.facets,
            r.labels == self.labels,
            r.langs == self.langs,
            r.reply == self.reply,
            r.tags == self.tags,
            r.text == self.text,
    {
        PostRecordData {
            created_at: match self.created_at {
                Some(t) => t,
                None => now,
            },
            embed: self.embed,
            facets: self.facets,
            labels: self.labels,
            langs: self.langs,
            reply: self.reply,
            tags: self.tags,
            text: self.text,
        }
    }

    /// The record, created at the set instant or, if none is set, at the
    /// instant the system clock gives.
    pub fn build(self) -> (r: PostRecordData)
        ensures
            self.created_at matches Some(t) ==> r.created_at == t,
            r.embed == self.embed,
            r.facets == self.facets,
            r.labels == self.labels,
            r.langs == self.langs,
            r.reply == self.reply,
            r.tags == self.tags,
            r.text == self.text,
    {
        let t = match self.created_at {
            Some(t) => t,
            None => now(),
        };
        self.build_at(t)
    }
}

/// An image to embed: a file path or a URI, with an alt text or not.
#[derive(Debug, Clone, PartialEq, Eq)]
pub enum ImageSubject {
    Path(String, Option<String>),
    Uri(String, Option<String>),
}

/// Why a post could not be built.
#[derive(Debug, Clone, PartialEq, Eq)]
pub enum BuilderError {
    /// A language that is not a BCP 47 tag; the tag.
    Lang(String),
}

/// Whether `atrium_api::types::string::Language::new` accepts a text (it
/// parses BCP 47 language tags with the `langtag` crate).
pub uninterp spec fn is_language_tag(s: Seq<char>) -> bool;

/// Checks a language tag with `atrium_api::types::string::Language::new`;
/// the result is named `is_language_tag`.
#[verifier::external_body]
fn language_is_valid(s: &str) -> (r: bool)
    ensures
        r == is_language_tag(s@),
{
    atrium_api::types::string::Language::new(s.to_string()).is_ok()
}

/// What `std::path::Path::file_name` gives for a path, as text: its last
/// component, unless that is `..` or there is none.
pub uninterp spec fn path_file_name(path: Seq<char>) -> Option<Seq<char>>;

/// Calls `std::path::Path::file_name`; the result is named `path_file_name`.
#[verifier::external_body]
fn file_name(path: &str) -> (r: Option<String>)
    ensures
        match r {
            Some(s) => path_file_name(path@) == Some(s@),
            None => path_file_name(path@) is None,
        },
{
    std::path::Path::new(path).file_name().map(|s| s.to_string_lossy().into_owned())
}

/// A builder of posts that embeds images, checks languages and detects
/// facets when it builds.
#[derive(Debug, Clone)]
pub struct Builder {
    pub inner: RecordBuilder,
    pub auto_detect_facets: bool,
    pub images: Option<Vec<ImageSubject>>,
    pub langs: Option<Vec<String>>,
}

/// The alt text of an image: the given one, else the file's name, else
/// nothing.
pub open spec fn spec_image_alt(path: Seq<char>, alt: Option<Seq<char>>) -> Seq<char> {
    match alt {
        Some(a) => a,
        None => match path_file_name(path) {
            Some(n) => n,
            None => Seq::empty(),
        },
    }
}

/// The first language that is not a language tag, if any.
pub open spec fn first_invalid_lang(langs: Seq<String>) -> Option<int>
    decreases langs.len(),
{
    if langs.len() == 0 {
        None
    } else {
        match first_invalid_lang(langs.drop_last()) {
            Some(i) => Some(i),
            None => if is_language_tag(langs.last()@) {
                None
            } else {
                Some(langs.len() - 1)
            },
        }
    }
}

/// Whether the images to embed are all files.
pub open spec fn only_paths(images: Option<Vec<ImageSubject>>) -> bool {
    images matches Some(v) ==> forall|i: int| 0 <= i < v@.len() ==> (#[trigger] v@[i]) is Path
}

impl Builder {
    /// A builder for a post with the given text, detecting facets.
    pub fn new(text: &str) -> (r: Self)
        ensures
            r.inner.text@ == text@,
            r.inner.created_at is None && r.inner.embed is None && r.inner.facets is None,
            r.inner.labels is None && r.inner.langs is None && r.inner.reply is None && r.inner.tags is None,
            r.auto_detect_facets,
            r.images is None,
            r.langs is None,
    {
        Builder { inner: RecordBuilder::new(text), auto_detect_facets: true, images: None, langs: None }
    }

    /// Sets whether facets are detected in the text.
    pub fn auto_detect_facets(self, value: bool) -> (r: Self)
        ensures
            r == (Builder { auto_detect_facets: value, ..self }),
    {
        Builder { auto_detect_facets: value, ..self }
    }

    /// Sets when the post was created.
    pub fn created_at(self, created_at: Timestamp) -> (r: Self)
        ensures
            r.inner == (RecordBuilder { created_at: Some(created_at), ..self.inner }),
            r.auto_detect_facets == self.auto_detect_facets,
            r.images == self.images,
            r.langs == self.langs,
    {
        Builder { inner: self.inner.created_at(created_at), ..self }
    }

    /// Sets the image files to embed, without alt texts.
    pub fn embed_images(self, paths: Vec<String>) -> (r: Self)
        ensures
            r.inner == self.inner,
            r.auto_detect_facets == self.auto_detect_facets,
            r.langs == self.langs,
            r.images matches Some(v) && v@.len() == paths@.len() && forall|i: int|
                0 <= i < paths@.len() ==> (#[trigger] v@[i]) == ImageSubject::Path(paths@[i], None),
    {
        let mut images: Vec<ImageSubject> = Vec::new();
        let mut i: usize = 0;
        while i < paths.len()
            invariant
                i <= paths@.len(),
                images@.len() == i,
                forall|j: int| 0 <= j < i ==> (#[trigger] images@[j]) == ImageSubject::Path(paths@[j], None),
            decreases paths.len() - i,
        {
            images.push(ImageSubject::Path(paths[i].clone(), None));
            i = i + 1;
        }
        Builder { images: Some(images), ..self }
    }

    /// Sets the post's facets, and stops detecting them.
    pub fn facets(self, facets: Vec<Facet>) -> (r: Self)
        ensures
            facets@.len() == 0 ==> r.inner == self.inner,
            facets@.len() > 0 ==> r.inner == (RecordBuilder { facets: Some(facets), ..self.inner }),
            !r.auto_detect_facets,
            r.images == self.images,
            r.langs == self.langs,
    {
        Builder { inner: self.inner.facets(facets), auto_detect_facets: false, ..self }
    }

    /// Sets the post's self-labels; an empty list leaves them as they were.
    pub fn labels(self, labels: Vec<String>) -> (r: Self)
        ensures
            labels@.len() == 0 ==> r.inner == self.inner,
            labels@.len() > 0 ==> r.inner == (RecordBuilder { labels: Some(labels), ..self.inner }),
            r.auto_detect_facets == self.auto_detect_facets,
            r.images == self.images,
            r.langs == self.langs,
    {
        Builder { inner: self.inner.labels(labels), ..self }
    }

    /// Sets the post's languages, checked when the post is built.
    pub fn langs(self, langs: Vec<String>) -> (r: Self)
        ensures
            r == (Builder { langs: Some(langs), ..self }),
    {
        Builder { langs: Some(langs), ..self }
    }

    /// Sets the post's tags.
    pub fn tags(self, tags: Vec<String>) -> (r: Self)
        ensures
            r.inner == (RecordBuilder { tags: Some(tags), ..self.inner }),
            r.auto_detect_facets == self.auto_detect_facets,
            r.images == self.images,
            r.langs == self.langs,
    {
        Builder { inner: self.inner.tags(tags), ..self }
    }

    /// The files to upload for the images to embed, each with its alt
    /// text: the given one, else the file's name.
    pub fn images_to_upload(&self) -> (r: Vec<(String, String)>)
        requires
            only_paths(self.images),
        ensures
            match self.images {
                Some(v) => r@.len() == v@.len() && forall|i: int|
                    0 <= i < v@.len() ==> (#[trigger] v@[i] matches ImageSubject::Path(p, alt) && r@[i].0@
                        == p@ && r@[i].1@ == spec_image_alt(
                        p@,
                        match alt {
                            Some(a) => Some(a@),
                            None => None,
                        },
                    )),
                None => r@.len() == 0,
            },
    {
        let mut out: Vec<(String, String)> = Vec::new();
        match &self.images {
            Some(v) => {
                let mut i: usize = 0;
                while i < v.len()
                    invariant
                        self.images == Some(*v),
                        only_paths(self.images),
                        i <= v@.len(),
                        out@.len() == i,
                        forall|j: int|
                            0 <= j < i ==> (#[trigger] v@[j] matches ImageSubject::Path(p, alt) && out@[j].0@
                                == p@ && out@[j].1@ == spec_image_alt(
                                p@,
                                match alt {
                                    Some(a) => Some(a@),
                                    None => None,
                                },
                            )),
                    decreases v.len() - i,
                {
                    assert(v@[i as int] is Path);
                    match &v[i] {
                        ImageSubject::Path(p, alt) => {
                            let a = match alt {
                                Some(a) => a.clone(),
                                None => match file_name(p.as_str()) {
                                    Some(n) => n,
                                    None => String::new(),
                                },
                            };
                            out.push((p.clone(), a));
                        },
                        ImageSubject::Uri(_, _) => {},
                    }
                    i = i + 1;
                }
            },
            None => {},
        }
        out
    }

    /// Embeds the uploaded images (when images are to be embedded) and
    /// checks the languages: the first that is not a language tag is an
    /// error; the others are set on the post.
    pub fn prepare(self, uploaded: Option<Vec<ImageData>>) -> (r: Result<Builder, BuilderError>)
        requires
            uploaded is Some <==> self.images is Some,
        ensures
            match self.langs {
                Some(langs) => match first_invalid_lang(langs@) {
                    Some(i) => r matches Err(BuilderError::Lang(t)) && t@ == langs@[i]@,
                    None => r matches Ok(b) && b.inner == (RecordBuilder {
                        embed: match uploaded {
                            Some(images) => Some(RecordEmbedData::Images(images)),
                            None => self.inner.embed,
                        },
                        langs: if langs@.len() == 0 {
                            self.inner.langs
                        } else {
                            Some(langs)
                        },
                        ..self.inner
                    }) && b.auto_detect_facets == self.auto_detect_facets && b.images is None && b.langs is None,
                },
                None => r matches Ok(b) && b.inner == (RecordBuilder {
                    embed: match uploaded {
                        Some(images) => Some(RecordEmbedData::Images(images)),
                        None => self.inner.embed,
                    },
                    ..self.inner
                }) && b.auto_detect_facets == self.auto_detect_facets && b.images is None && b.langs is None,
            },
    {
        let inner = match uploaded {
            Some(images) => self.inner.embed(RecordEmbedData::Images(images)),
            None => self.inner,
        };
        let inner = match self.langs {
            Some(langs) => {
                let mut i: usize = 0;
                while i < langs.len()
                    invariant
                        self.langs == Some(langs),
                        i <= langs@.len(),
                        first_invalid_lang(langs@.take(i as int)) is None,
                    decreases langs.len() - i,
                {
                    assert(langs@.take(i + 1).drop_last() =~= langs@.take(i as int));
                    if !language_is_valid(langs[i].as_str()) {
                        proof {
                            lemma_first_invalid_prefix(langs@, i as int);
                        }
                        return Err(BuilderError::Lang(langs[i].clone()));
                    }
                    i = i + 1;
                }
                assert(langs@.take(i as int) =~= langs@);
                inner.langs(langs)
            },
            None => inner,
        };
        Ok(Builder { inner, auto_detect_facets: self.auto_detect_facets, images: None, langs: None })
    }

    /// The record builder, with the facets detected in the text when
    /// facets are to be detected (`detected` is what detection gave).
    pub fn finish(self, detected: Option<Vec<Facet>>) -> (r: RecordBuilder)
        ensures
            self.auto_detect_facets && detected is Some ==> (detected matches Some(f) && (if f@.len() == 0 {
                r == self.inner
            } else {
                r == (RecordBuilder { facets: Some(f), ..self.inner })
            })),
            !(self.auto_detect_facets && detected is Some) ==> r == self.inner,
    {
        if self.auto_detect_facets {
            match detected {
                Some(facets) => self.inner.facets(facets),
                None => self.inner,
            }
        } else {
            self.inner
        }
    }
}

proof fn lemma_first_invalid_prefix(langs: Seq<String>, i: int)
    requires
        0 <= i < langs.len(),
        first_invalid_lang(langs.take(i)) is None,
        !is_language_tag(langs[i]@),
    ensures
        first_invalid_lang(langs) == Some(i),
    decreases langs.len() - i,
{
    if i == langs.len() - 1 {
        assert(langs.drop_last() =~= langs.take(i));
    } else {
        assert(langs.drop_last().take(i) =~= langs.take(i));
        lemma_first_invalid_prefix(langs.drop_last(), i);
    }
}

} // verus!
