use bsky_sdk::feed::{
    BlobRef, Builder, BuilderError, ImageData, PostRecordData, RecordBuilder, RecordEmbedData,
};
use bsky_sdk::moderation::types::Timestamp;
use bsky_sdk::rich_text::facet::{ByteSlice, Facet, FacetFeature, Link, Tag};
use bsky_sdk::rich_text::RichText;

fn now() -> Timestamp {
    let d = std::time::SystemTime::now()
        .duration_since(std::time::UNIX_EPOCH)
        .expect("clock before the epoch");
    Timestamp { seconds: d.as_secs() as i64, nanos: d.subsec_nanos() }
}

fn record(created_at: Timestamp, text: &str) -> PostRecordData {
    PostRecordData {
        created_at,
        embed: None,
        facets: None,
        labels: None,
        langs: None,
        reply: None,
        tags: None,
        text: String::from(text),
    }
}

/// Builds a post as the agent does: uploads the images (here each file
/// becomes a blob with a fixed CID), checks the languages, then detects
/// facets (each mention resolved to `did:fake:` and its handle).
fn build(builder: Builder) -> Result<PostRecordData, BuilderError> {
    let uploaded = builder.images.as_ref().map(|_| {
        builder
            .images_to_upload()
            .into_iter()
            .map(|(_, alt)| ImageData {
                alt,
                image: BlobRef {
                    cid: String::from("bafyreiclp443lavogvhj3d2ob2cxbfuscni2k5jk7bebjzg7khl3esabwq"),
                    mime_type: String::from("image/png"),
                    size: 8493,
                },
            })
            .collect::<Vec<_>>()
    });
    let builder = builder.prepare(uploaded)?;
    let detected = if builder.auto_detect_facets {
        let mut rt = RichText::new(&builder.inner.text, None);
        let dids = rt.mentions_to_resolve().iter().map(|h| format!("did:fake:{h}")).collect::<Vec<_>>();
        rt.set_detected_facets(&dids);
        rt.facets
    } else {
        None
    };
    Ok(builder.finish(detected).build())
}

#[test]
fn record_builder() {
    {
        let record = RecordBuilder::new("").build();
        assert_eq!(record.text, "");
    }
    {
        let now = now();
        let built = RecordBuilder::new("foo").created_at(now).build();
        assert_eq!(built, record(now, "foo"));
    }
    {
        let now = now();
        let built = RecordBuilder::new("bar")
            .created_at(now)
            .labels(vec![String::from("baz")])
            .langs(vec![String::from("en"), String::from("ja")])
            .build();
        assert_eq!(
            built,
            PostRecordData {
                labels: Some(vec![String::from("baz")]),
                langs: Some(vec![String::from("en"), String::from("ja")]),
                ..record(now, "bar")
            }
        );
    }
}

#[test]
fn record_builder_keeps_only_non_empty_lists() {
    let now = now();
    let built = RecordBuilder::new("x")
        .created_at(now)
        .facets(Vec::new())
        .labels(Vec::new())
        .langs(Vec::new())
        .tags(Vec::new())
        .build();
    assert_eq!(built, PostRecordData { tags: Some(Vec::new()), ..record(now, "x") });
}

#[test]
fn builder_build() {
    let record = build(Builder::new("")).expect("failed to build record");
    assert_eq!(record.text, "");
    assert_eq!(record.facets, None);
}

#[test]
fn builder_auto_detect_facets() {
    let now = now();
    let built = build(Builder::new("foo #bar https://example.com").created_at(now))
        .expect("failed to build record");
    assert_eq!(
        built,
        PostRecordData {
            facets: Some(vec![
                Facet {
                    features: vec![FacetFeature::Link(Link { uri: String::from("https://example.com") })],
                    index: ByteSlice { byte_end: 28, byte_start: 9 },
                },
                Facet {
                    features: vec![FacetFeature::Tag(Tag { tag: String::from("bar") })],
                    index: ByteSlice { byte_end: 8, byte_start: 4 },
                },
            ]),
            ..record(now, "foo #bar https://example.com")
        }
    );
}

#[test]
fn builder_no_auto_detect_facets() {
    {
        let now = now();
        let built = build(Builder::new("foo #bar https://example.com").created_at(now).auto_detect_facets(false))
            .expect("failed to build record");
        assert_eq!(built, record(now, "foo #bar https://example.com"));
    }
    {
        let now = now();
        let built = build(Builder::new("foo #bar https://example.com").created_at(now).facets(Vec::new()))
            .expect("failed to build record");
        assert_eq!(built, record(now, "foo #bar https://example.com"));
    }
}

#[test]
fn builder_embed() {
    let now = now();
    let built = build(
        Builder::new("embed images")
            .created_at(now)
            .embed_images(vec![String::from("tests/data/images/dummy_600x400_ffffff_cccccc.png")]),
    )
    .expect("failed to build record");
    assert_eq!(
        built,
        PostRecordData {
            embed: Some(RecordEmbedData::Images(vec![ImageData {
                alt: String::from("dummy_600x400_ffffff_cccccc.png"),
                image: BlobRef {
                    cid: String::from("bafyreiclp443lavogvhj3d2ob2cxbfuscni2k5jk7bebjzg7khl3esabwq"),
                    mime_type: String::from("image/png"),
                    size: 8493,
                },
            }])),
            ..record(now, "embed images")
        }
    );
}

#[test]
fn builder_rejects_the_first_invalid_language() {
    let result = build(Builder::new("hi").langs(vec![String::from("en"), String::from("not a tag"), String::from("??")]));
    assert_eq!(result, Err(BuilderError::Lang(String::from("not a tag"))));
    let ok = build(Builder::new("hi").langs(vec![String::from("en"), String::from("ja")])).expect("valid tags");
    assert_eq!(ok.langs, Some(vec![String::from("en"), String::from("ja")]));
}
