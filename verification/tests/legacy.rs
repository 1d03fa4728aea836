use indexmap::IndexMap;
use koharu::legacy::{
    LegacyImageDataPatchV0, LegacyImageDataV0, LegacyMaskDataPatchV0, LegacyMaskDataV0,
    LegacyNodeDataPatchV0, LegacyNodeKindV0, LegacyNodePatchV0, LegacyNodeV0, LegacyOpV0,
    LegacyPagePatchV0, LegacyPageV0, LegacyProjectMetaPatchV0, LegacyProjectMetaV0,
    LegacyProjectStyleV0, LegacySceneV0, LegacyTextAlignV0, LegacyTextDataPatchV0,
    LegacyTextDataV0, LegacyTextShaderEffectV0, LegacyTextStrokeStyleV0, LegacyTextStyleV0,
    LegacyTransformV0,
};
use koharu::scene::{
    BlobRef, FloatBits, FontPrediction, ImageRole, MaskRole, Node, NodeDataPatch, NodeKind, Op,
    Page, Scene, TextAlign, TextDirection, Timestamp,
};

fn float(value: f32) -> FloatBits {
    FloatBits { bits: value.to_bits() }
}

fn transform() -> LegacyTransformV0 {
    LegacyTransformV0 {
        x: float(10.0),
        y: float(20.0),
        width: float(120.0),
        height: float(48.0),
        rotation_deg: float(0.0),
    }
}

fn blob(hash: &str) -> BlobRef {
    BlobRef { hash: hash.to_string() }
}

fn style() -> LegacyTextStyleV0 {
    LegacyTextStyleV0 {
        font_families: vec!["Arial".to_string()],
        font_size: Some(float(20.0)),
        color: [1, 2, 3, 255],
        effect: Some(LegacyTextShaderEffectV0 { italic: true, bold: false }),
        stroke: Some(LegacyTextStrokeStyleV0 {
            enabled: true,
            color: [4, 5, 6, 7],
            width_px: Some(float(1.5)),
        }),
        text_align: Some(LegacyTextAlignV0::Center),
    }
}

fn text_node(id: u128) -> LegacyNodeV0 {
    LegacyNodeV0 {
        id,
        transform: transform(),
        visible: true,
        kind: LegacyNodeKindV0::Text(LegacyTextDataV0 {
            confidence: float(0.9),
            source_lang: Some("ja".to_string()),
            source_direction: Some(TextDirection { number: 1 }),
            rendered_direction: None,
            line_polygons: Some(vec![[[float(1.0), float(2.0)]; 4]]),
            rotation_deg: None,
            detected_font_size_px: Some(float(12.0)),
            detector: Some("fixture".to_string()),
            text: Some("古い".to_string()),
            translation: Some("legacy text".to_string()),
            style: Some(style()),
            font_prediction: Some(FontPrediction { encoded: vec![1, 2] }),
            sprite: Some(blob("sprite")),
            sprite_transform: Some(transform()),
            lock_layout_box: true,
        }),
    }
}

fn image_node(id: u128) -> LegacyNodeV0 {
    LegacyNodeV0 {
        id,
        transform: transform(),
        visible: false,
        kind: LegacyNodeKindV0::Image(LegacyImageDataV0 {
            role: ImageRole::Source,
            blob: blob("image"),
            opacity: float(0.5),
            natural_width: 800,
            natural_height: 1200,
            name: Some("cover".to_string()),
        }),
    }
}

fn mask_node(id: u128) -> LegacyNodeV0 {
    LegacyNodeV0 {
        id,
        transform: transform(),
        visible: true,
        kind: LegacyNodeKindV0::Mask(LegacyMaskDataV0 {
            role: MaskRole::Other(4),
            blob: blob("mask"),
        }),
    }
}

fn page(id: u128, nodes: Vec<LegacyNodeV0>) -> LegacyPageV0 {
    let nodes: IndexMap<u128, LegacyNodeV0> = nodes.into_iter().map(|n| (n.id, n)).collect();
    LegacyPageV0 { id, name: format!("page {id}"), width: 800, height: 1200, nodes }
}

fn check_text(node: &Node) {
    assert!(node.visible);
    assert_eq!(node.transform.width, float(120.0));
    let NodeKind::Text(text) = &node.kind else {
        panic!("expected text node");
    };
    assert_eq!(text.confidence, float(0.9));
    assert_eq!(text.source_lang.as_deref(), Some("ja"));
    assert_eq!(text.source_direction, Some(TextDirection { number: 1 }));
    assert_eq!(text.rendered_direction, None);
    assert_eq!(text.line_polygons.as_ref().unwrap()[0][3], [float(1.0), float(2.0)]);
    assert_eq!(text.rotation_deg, None);
    assert_eq!(text.detected_font_size_px, Some(float(12.0)));
    assert_eq!(text.detector.as_deref(), Some("fixture"));
    assert_eq!(text.text.as_deref(), Some("古い"));
    assert_eq!(text.translation.as_deref(), Some("legacy text"));
    assert_eq!(text.font_prediction.as_ref().unwrap().encoded, vec![1, 2]);
    assert_eq!(text.sprite.as_ref().unwrap().hash, "sprite");
    assert_eq!(text.sprite_transform.unwrap().y, float(20.0));
    assert!(text.lock_layout_box);
    let style = text.style.as_ref().unwrap();
    assert_eq!(style.font_families, vec!["Arial".to_string()]);
    assert_eq!(style.font_size, Some(float(20.0)));
    assert_eq!(style.color, [1, 2, 3, 255]);
    let effect = style.effect.unwrap();
    assert!(effect.italic);
    assert!(!effect.bold);
    let stroke = style.stroke.as_ref().unwrap();
    assert!(stroke.enabled);
    assert_eq!(stroke.color, [4, 5, 6, 7]);
    assert_eq!(stroke.width_px, Some(float(1.5)));
    assert_eq!(style.text_align, Some(TextAlign::Center));
    assert_eq!(style.line_spacing, None);
    assert_eq!(style.letter_spacing, None);
}

#[test]
fn scene_migrates_with_its_pages_in_order() {
    let pages: IndexMap<u128, LegacyPageV0> = [9u128, 2, 5]
        .into_iter()
        .map(|id| (id, page(id, vec![mask_node(30), text_node(10), image_node(20)])))
        .collect();
    let scene = Scene::from(LegacySceneV0 {
        project: LegacyProjectMetaV0 {
            name: "legacy-project".to_string(),
            created_at: Timestamp { secs: 1, nanos: 2 },
            updated_at: Timestamp { secs: 3, nanos: 4 },
            style: LegacyProjectStyleV0 { default_font: None },
        },
        pages,
    });
    assert_eq!(scene.project.name, "legacy-project");
    assert_eq!(scene.pages.keys().copied().collect::<Vec<u128>>(), vec![9, 2, 5]);
    for (id, page) in &scene.pages {
        assert_eq!(page.id, *id);
        assert_eq!(page.name, format!("page {id}"));
        assert_eq!((page.width, page.height), (800, 1200));
        assert_eq!(page.nodes.keys().copied().collect::<Vec<u128>>(), vec![30, 10, 20]);
        check_text(&page.nodes[&10]);
        let NodeKind::Image(image) = &page.nodes[&20].kind else {
            panic!("expected image node");
        };
        assert_eq!(image.role, ImageRole::Source);
        assert_eq!(image.blob.hash, "image");
        assert_eq!(image.opacity, float(0.5));
        assert_eq!((image.natural_width, image.natural_height), (800, 1200));
        assert_eq!(image.name.as_deref(), Some("cover"));
        let NodeKind::Mask(mask) = &page.nodes[&30].kind else {
            panic!("expected mask node");
        };
        assert_eq!(mask.role, MaskRole::Other(4));
        assert_eq!(mask.blob.hash, "mask");
    }
}

#[test]
fn large_page_keeps_all_its_nodes() {
    let migrated = Page::from(page(1, (0..1000u128).rev().map(mask_node).collect()));
    assert_eq!(
        migrated.nodes.keys().copied().collect::<Vec<u128>>(),
        (0..1000u128).rev().collect::<Vec<u128>>()
    );
}

#[test]
fn page_operations_migrate() {
    let op = Op::from(LegacyOpV0::AddPage { page: page(4, vec![text_node(10)]), at: 2 });
    let Op::AddPage { page: added, at } = op else {
        panic!("expected an added page");
    };
    assert_eq!((added.id, at), (4, 2));
    check_text(&added.nodes[&10]);
    let op = Op::from(LegacyOpV0::RemovePage { id: 4, prev_page: page(4, vec![]), prev_index: 1 });
    assert!(matches!(op, Op::RemovePage { id: 4, prev_page, prev_index: 1 }
        if prev_page.id == 4 && prev_page.nodes.is_empty()));
    let patch = |name: &str| LegacyPagePatchV0 {
        name: Some(name.to_string()),
        width: Some(3),
        height: None,
    };
    let op = Op::from(LegacyOpV0::UpdatePage { id: 4, patch: patch("a"), prev: patch("b") });
    assert!(matches!(op, Op::UpdatePage { id: 4, patch, prev }
        if patch.name.as_deref() == Some("a") && prev.name.as_deref() == Some("b")
            && patch.width == Some(3) && patch.height.is_none()));
    let op = Op::from(LegacyOpV0::UpdateProjectMeta {
        patch: LegacyProjectMetaPatchV0 {
            name: Some("new".to_string()),
            style: Some(LegacyProjectStyleV0 { default_font: Some("Mincho".to_string()) }),
            updated_at: Some(Timestamp { secs: 9, nanos: 0 }),
        },
        prev: LegacyProjectMetaPatchV0 { name: None, style: None, updated_at: None },
    });
    let Op::UpdateProjectMeta { patch, prev } = op else {
        panic!("expected new metadata");
    };
    assert_eq!(patch.name.as_deref(), Some("new"));
    assert_eq!(patch.style.unwrap().default_font.as_deref(), Some("Mincho"));
    assert_eq!(patch.updated_at, Some(Timestamp { secs: 9, nanos: 0 }));
    assert!(prev.name.is_none() && prev.style.is_none() && prev.updated_at.is_none());
}

fn text_patch() -> LegacyTextDataPatchV0 {
    LegacyTextDataPatchV0 {
        confidence: Some(float(0.25)),
        source_lang: Some(None),
        source_direction: None,
        rendered_direction: Some(Some(TextDirection { number: 0 })),
        line_polygons: Some(None),
        rotation_deg: Some(Some(float(3.0))),
        detected_font_size_px: None,
        detector: None,
        text: Some(Some("t".to_string())),
        translation: Some(Some("edited after migration".to_string())),
        style: Some(Some(style())),
        font_prediction: Some(None),
        sprite: Some(Some(blob("s"))),
        sprite_transform: Some(None),
        lock_layout_box: Some(false),
    }
}

#[test]
fn node_operations_migrate() {
    let op = Op::from(LegacyOpV0::UpdateNode {
        page: 1,
        id: 2,
        patch: LegacyNodePatchV0 {
            transform: Some(transform()),
            visible: Some(true),
            data: Some(LegacyNodeDataPatchV0::Text(text_patch())),
        },
        prev: LegacyNodePatchV0 { transform: None, visible: None, data: None },
    });
    let Op::UpdateNode { page: 1, id: 2, patch, prev } = op else {
        panic!("expected an updated node");
    };
    assert_eq!(patch.transform.unwrap().x, float(10.0));
    assert_eq!(patch.visible, Some(true));
    assert!(prev.transform.is_none() && prev.visible.is_none() && prev.data.is_none());
    let Some(NodeDataPatch::Text(text)) = patch.data else {
        panic!("expected a text patch");
    };
    assert_eq!(text.confidence, Some(float(0.25)));
    assert_eq!(text.source_lang, Some(None));
    assert_eq!(text.rendered_direction, Some(Some(TextDirection { number: 0 })));
    assert!(matches!(text.line_polygons, Some(None)));
    assert_eq!(text.rotation_deg, Some(Some(float(3.0))));
    assert!(text.source_direction.is_none() && text.detected_font_size_px.is_none());
    assert_eq!(text.text, Some(Some("t".to_string())));
    assert_eq!(text.translation, Some(Some("edited after migration".to_string())));
    let migrated_style = text.style.unwrap().unwrap();
    assert_eq!(migrated_style.line_spacing, None);
    assert_eq!(migrated_style.color, [1, 2, 3, 255]);
    assert!(matches!(text.font_prediction, Some(None)));
    assert_eq!(text.sprite.unwrap().unwrap().hash, "s");
    assert_eq!(text.sprite_transform, Some(None));
    assert_eq!(text.lock_layout_box, Some(false));

    let op = Op::from(LegacyOpV0::RemoveNode {
        page: 1,
        id: 10,
        prev_node: text_node(10),
        prev_index: 7,
    });
    let Op::RemoveNode { page: 1, id: 10, prev_node, prev_index: 7 } = op else {
        panic!("expected a removed node");
    };
    check_text(&prev_node);
    let op = Op::from(LegacyOpV0::AddNode { page: 1, node: mask_node(3), at: 0 });
    assert!(matches!(op, Op::AddNode { page: 1, node, at: 0 } if node.id == 3));
    let op = Op::from(LegacyOpV0::ReorderNodes {
        page: 1,
        order: vec![3, 1],
        prev_order: vec![1, 3],
    });
    assert!(matches!(op, Op::ReorderNodes { page: 1, order, prev_order }
        if order == vec![3, 1] && prev_order == vec![1, 3]));
}

#[test]
fn image_and_mask_patches_migrate() {
    let image = NodeDataPatch::from(LegacyNodeDataPatchV0::Image(LegacyImageDataPatchV0 {
        blob: Some(blob("new")),
        opacity: Some(float(1.0)),
        name: Some(None),
        natural_width: Some(5),
        natural_height: None,
    }));
    assert!(matches!(image, NodeDataPatch::Image(data)
        if data.blob.as_ref().unwrap().hash == "new" && data.opacity == Some(float(1.0))
            && data.name == Some(None) && data.natural_width == Some(5)
            && data.natural_height.is_none()));
    let mask = NodeDataPatch::from(LegacyNodeDataPatchV0::Mask(LegacyMaskDataPatchV0 {
        blob: None,
    }));
    assert!(matches!(mask, NodeDataPatch::Mask(data) if data.blob.is_none()));
}

#[test]
fn batch_migrates_from_the_inside_out() {
    let inner = LegacyOpV0::Batch {
        ops: vec![LegacyOpV0::AddNode { page: 1, node: text_node(10), at: 3 }],
        label: "inner".to_string(),
    };
    let op = Op::from(LegacyOpV0::Batch {
        ops: vec![LegacyOpV0::ReorderPages { order: vec![1], prev_order: vec![] }, inner],
        label: "outer".to_string(),
    });
    let Op::Batch { ops, label } = op else {
        panic!("expected a batch");
    };
    assert_eq!(label, "outer");
    assert_eq!(ops.len(), 2);
    assert!(matches!(&ops[0], Op::ReorderPages { order, .. } if *order == vec![1]));
    let Op::Batch { ops: inner_ops, label: inner_label } = &ops[1] else {
        panic!("expected an inner batch");
    };
    assert_eq!(inner_label, "inner");
    let Op::AddNode { page: 1, node, at: 3 } = &inner_ops[0] else {
        panic!("expected an added node");
    };
    check_text(node);
}

#[test]
fn text_alignment_migrates() {
    assert_eq!(TextAlign::from(LegacyTextAlignV0::Left), TextAlign::Left);
    assert_eq!(TextAlign::from(LegacyTextAlignV0::Center), TextAlign::Center);
    assert_eq!(TextAlign::from(LegacyTextAlignV0::Right), TextAlign::Right);
}
