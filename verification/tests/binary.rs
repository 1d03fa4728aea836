use std::io::{self, Write};

use indexmap::IndexMap;
use koharu::binary::{
    get_blob, get_page_thumbnail, get_scene_bin, get_scene_json, is_scaled_down,
    log_oversized_pages, new_thumbnail, require_session, scene_json_limit_error,
    serialize_scene_json, webp_response, LimitedWriter, PageFinding, SceneJsonSerializationError,
    Thumbnail, WriteError, MAX_SCENE_JSON_BYTES,
};
use koharu::scene::{
    BlobRef, FloatBits, ImageData, ImageRole, MaskData, MaskRole, Node, NodeKind, Page, Scene,
    SceneSnapshot, Timestamp, Transform,
};
use koharu::session::{blank_metadata, new_scene};
use serde_json::Value;

/// The writer as the serializer sees it.
struct Sink {
    writer: LimitedWriter,
}

impl Write for Sink {
    fn write(&mut self, buf: &[u8]) -> io::Result<usize> {
        self.writer.write(buf).map_err(|error| io::Error::other(format!("{error:?}")))
    }

    fn flush(&mut self) -> io::Result<()> {
        self.writer.flush().map_err(|error| io::Error::other(format!("{error:?}")))
    }
}

fn epoch_start() -> Timestamp {
    Timestamp { secs: 0, nanos: 0 }
}

fn default_scene() -> Scene {
    new_scene(blank_metadata(epoch_start(), epoch_start())).0
}

fn snapshot_value(snapshot: &SceneSnapshot) -> Value {
    let mut project = serde_json::Map::new();
    project.insert("name".to_string(), Value::from(snapshot.scene.project.name.as_str()));
    let mut pages = serde_json::Map::new();
    for (id, page) in &snapshot.scene.pages {
        pages.insert(id.to_string(), Value::from(page.name.as_str()));
    }
    let mut scene = serde_json::Map::new();
    scene.insert("project".to_string(), Value::Object(project));
    scene.insert("pages".to_string(), Value::Object(pages));
    let mut root = serde_json::Map::new();
    root.insert("epoch".to_string(), Value::from(snapshot.epoch));
    root.insert("scene".to_string(), Value::Object(scene));
    Value::Object(root)
}

fn serialize(
    value: &Value,
    limit: usize,
) -> Result<Vec<u8>, SceneJsonSerializationError<serde_json::Error>> {
    let mut sink = Sink { writer: LimitedWriter::new(limit) };
    let outcome = serde_json::to_writer(&mut sink, value);
    serialize_scene_json(sink.writer, outcome)
}

#[test]
fn scene_json_below_limit_preserves_snapshot_shape() {
    let scene = default_scene();
    let bytes =
        serialize(&snapshot_value(&SceneSnapshot { epoch: 42, scene }), MAX_SCENE_JSON_BYTES)
            .expect("default scene must fit under the response limit");

    let value: Value = serde_json::from_slice(&bytes).expect("valid JSON");
    assert_eq!(value["epoch"], 42);
    assert_eq!(value["scene"]["project"]["name"], "");
    assert_eq!(value["scene"]["pages"], Value::Object(serde_json::Map::new()));
}

#[test]
fn scene_json_stops_when_the_limited_writer_is_full() {
    let scene = default_scene();
    let result = serialize(&snapshot_value(&SceneSnapshot { epoch: 1, scene }), 8);

    assert!(matches!(result, Err(SceneJsonSerializationError::LimitExceeded)));
}

#[test]
fn limited_writer_does_not_retain_bytes_past_its_limit() {
    let mut writer = LimitedWriter::new(3);
    writer.write_all(b"abc").expect("bytes within limit");
    assert!(writer.write_all(b"d").is_err());
    assert_eq!(writer.bytes, b"abc");
}

#[test]
fn scene_json_limit_failure_is_a_controlled_http_error() {
    let error = scene_json_limit_error(837);
    assert_eq!(error.status, 500);
    assert!(error.content_type().contains("application/json"));
    assert_eq!(
        error.message,
        "scene.json exceeds the 3221225472 byte limit across 837 pages — refusing to avoid \
         crashing the app; see the `oversized page` error(s) logged just above for which page(s) \
         to investigate"
    );
}

#[test]
fn a_text_is_whole_or_refused_at_any_limit() {
    let value = snapshot_value(&SceneSnapshot { epoch: 7, scene: default_scene() });
    let whole = serde_json::to_vec(&value).unwrap();
    for limit in 0..whole.len() + 3 {
        match serialize(&value, limit) {
            Ok(bytes) => {
                assert!(limit >= whole.len());
                assert_eq!(bytes, whole);
            }
            Err(error) => {
                assert!(limit < whole.len());
                assert!(matches!(error, SceneJsonSerializationError::LimitExceeded));
            }
        }
    }
}

#[test]
fn writer_takes_writes_up_to_the_limit_and_counts_the_refusal() {
    let mut writer = LimitedWriter::new(5);
    assert_eq!(writer.write(b"ab").unwrap(), 2);
    assert_eq!(writer.write(b"").unwrap(), 0);
    assert!(!writer.exceeded);
    assert!(matches!(writer.write(b"cdef"), Err(WriteError::LimitExceeded)));
    assert!(writer.exceeded);
    assert_eq!(writer.write(b"cde").unwrap(), 3);
    writer.flush().unwrap();
    assert_eq!(writer.into_bytes(), b"abcde");
}

#[test]
fn as_much_is_reserved_as_is_written() {
    let mut writer = LimitedWriter::new(5);
    writer.write_all(b"ab").unwrap();
    assert!(matches!(writer.room_to_reserve(b"cde"), Ok(3)));
    assert!(matches!(writer.room_to_reserve(b""), Ok(0)));
    assert!(matches!(writer.room_to_reserve(b"cdef"), Err(WriteError::LimitExceeded)));
    assert!(!writer.exceeded);
}

#[test]
fn writer_without_memory_keeps_what_it_has() {
    let mut failing: Vec<u8> = Vec::new();
    let no_memory = failing.try_reserve_exact(usize::MAX);
    assert!(no_memory.is_err());
    let mut writer = LimitedWriter::new(usize::MAX);
    writer.write_all(b"ab").unwrap();
    assert!(matches!(writer.append_reserved(b"c", no_memory), Err(WriteError::Reserve(_))));
    assert!(!writer.exceeded);
    assert_eq!(writer.append_reserved(b"c", Ok(())).unwrap(), 1);
    assert_eq!(writer.bytes, b"abc");
}

#[test]
fn serializer_error_without_a_full_writer_is_its_own() {
    let result = serialize_scene_json(LimitedWriter::new(8), Err("broken"));
    assert!(matches!(result, Err(SceneJsonSerializationError::Serialize("broken"))));
}

#[test]
fn only_large_or_unserializable_pages_are_reported() {
    let sizes = [(1u128, Some(1_000_000)), (2, Some(1_000_001)), (3, None), (4, Some(0))];
    assert_eq!(
        log_oversized_pages(&sizes),
        vec![
            PageFinding::Oversized { page: 2, bytes: 1_000_001 },
            PageFinding::OverCeiling { page: 3 },
        ]
    );
}

#[test]
fn requests_need_an_open_project() {
    assert_eq!(require_session(Some(5)).unwrap(), 5);
    let error = require_session::<u8>(None).unwrap_err();
    assert_eq!(error.status, 400);
    assert_eq!(error.message, "no project open");
}

#[test]
fn scene_json_replies() {
    let reply = get_scene_json(Ok(vec![1, 2]), 3).unwrap();
    assert_eq!(reply.content_type, "application/json");
    assert_eq!(reply.epoch, None);
    assert_eq!(reply.body, vec![1, 2]);
    let refused = get_scene_json(Err(SceneJsonSerializationError::LimitExceeded), 3).unwrap_err();
    assert_eq!(refused.status, 500);
    assert!(refused.message.contains("across 3 pages"));
    let failed =
        get_scene_json(Err(SceneJsonSerializationError::Serialize("boom".to_string())), 3)
            .unwrap_err();
    assert_eq!(failed.status, 500);
    assert_eq!(failed.message, "boom");
}

#[test]
fn scene_bin_carries_the_epoch_twice() {
    let reply = get_scene_bin(300, Ok(vec![9, 8])).unwrap();
    assert_eq!(reply.content_type, "application/octet-stream");
    assert_eq!(reply.epoch.as_deref(), Some("300"));
    let (epoch, rest): (u64, &[u8]) = postcard::take_from_bytes(&reply.body).unwrap();
    assert_eq!(epoch, 300);
    assert_eq!(rest, &[9, 8]);
    assert_eq!(reply.body, vec![0xAC, 0x02, 9, 8]);
    let failed = get_scene_bin(1, Err("full".to_string())).unwrap_err();
    assert_eq!(failed.status, 500);
    assert_eq!(failed.message, "full");
}

#[test]
fn blob_replies() {
    let reply = get_blob(Some(vec![4])).unwrap();
    assert_eq!(reply.content_type, "application/octet-stream");
    assert_eq!(reply.body, vec![4]);
    let missing = get_blob(None).unwrap_err();
    assert_eq!(missing.status, 404);
    assert_eq!(missing.message, "blob not found");
}

fn node(id: u128, kind: NodeKind) -> (u128, Node) {
    let zero = FloatBits { bits: 0 };
    let transform = Transform { x: zero, y: zero, width: zero, height: zero, rotation_deg: zero };
    (id, Node { id, transform, visible: true, kind })
}

fn image(role: ImageRole, hash: &str) -> NodeKind {
    NodeKind::Image(ImageData {
        role,
        blob: BlobRef { hash: hash.to_string() },
        opacity: FloatBits { bits: 0 },
        natural_width: 1,
        natural_height: 1,
        name: None,
    })
}

fn page(id: u128, nodes: Vec<(u128, Node)>) -> (u128, Page) {
    let nodes: IndexMap<u128, Node> = nodes.into_iter().collect();
    (id, Page { id, name: "p".to_string(), width: 1, height: 1, nodes })
}

#[test]
fn thumbnail_is_made_of_the_first_source_image() {
    let mask = NodeKind::Mask(MaskData {
        role: MaskRole::Segment,
        blob: BlobRef { hash: "mask".to_string() },
    });
    let mut scene = default_scene();
    scene.pages = vec![
        page(1, vec![]),
        page(
            2,
            vec![
                node(10, mask),
                node(11, image(ImageRole::Inpainted, "inpainted")),
                node(12, image(ImageRole::Source, "first")),
                node(13, image(ImageRole::Source, "second")),
            ],
        ),
    ]
    .into_iter()
    .collect();
    assert!(matches!(
        get_page_thumbnail(None, &scene, 2, "two"),
        Ok(Thumbnail::Source(blob)) if blob.hash == "first"
    ));
    let bare = get_page_thumbnail(None, &scene, 1, "one").unwrap_err();
    assert_eq!((bare.status, bare.message.as_str()), (404, "page has no source image"));
    let missing = get_page_thumbnail(None, &scene, 3, "three").unwrap_err();
    assert_eq!((missing.status, missing.message.as_str()), (404, "page three"));
}

#[test]
fn only_images_over_the_thumbnail_size_are_scaled_down() {
    assert!(!is_scaled_down(320, 320));
    assert!(is_scaled_down(321, 1));
    assert!(is_scaled_down(1, 321));
    assert!(!is_scaled_down(0, 0));
    for side in [1u32, 319, 320, 321, 4000, u32::MAX] {
        assert_eq!(is_scaled_down(side, 1), 320f32 / (side.max(1) as f32) < 1.0);
    }
}

#[test]
fn cached_thumbnail_is_served_before_anything_is_looked_up() {
    match get_page_thumbnail(Some(vec![7, 7]), &default_scene(), 9, "nine") {
        Ok(Thumbnail::Cached(reply)) => {
            assert_eq!(reply.content_type, "image/webp");
            assert_eq!(reply.body, vec![7, 7]);
        }
        _ => panic!("expected the cached thumbnail"),
    }
}

#[test]
fn new_thumbnail_is_served_or_fails() {
    let reply = new_thumbnail(Ok(vec![5])).unwrap();
    assert_eq!((reply.content_type, reply.body), ("image/webp", vec![5]));
    let failed = new_thumbnail(Err("no such blob".to_string())).unwrap_err();
    assert_eq!((failed.status, failed.message.as_str()), (500, "no such blob"));
}

#[test]
fn epoch_header_is_the_decimal_number() {
    for epoch in [0u64, 9, 10, 100, u64::MAX] {
        let reply = get_scene_bin(epoch, Ok(vec![])).unwrap();
        assert_eq!(reply.epoch, Some(epoch.to_string()));
    }
}

#[test]
fn thumbnail_reply_is_webp() {
    let reply = webp_response(vec![1]);
    assert_eq!(reply.content_type, "image/webp");
    assert_eq!(reply.body, vec![1]);
}
