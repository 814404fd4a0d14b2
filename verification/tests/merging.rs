use gpxjoin::{join_gpx, MergeError, TagMismatch};

fn join(sources: &[&str]) -> (Result<(), MergeError>, String) {
    let sources: Vec<Vec<u8>> = sources.iter().map(|s| s.as_bytes().to_vec()).collect();
    let mut out = Vec::new();
    let result = join_gpx(&sources, &mut out);
    (result, String::from_utf8(out).unwrap())
}

fn mismatch(source: usize, expected: Option<&str>, found: &str) -> MergeError {
    MergeError::TagMismatch {
        source,
        mismatch: TagMismatch {
            expected: expected.map(|name| name.as_bytes().to_vec()),
            found: found.as_bytes().to_vec(),
        },
    }
}

#[test]
fn example_scenario() {
    let (result, out) = join(&[
        "<gpx><metadata>M</metadata><trk>A</trk></gpx>",
        "<gpx><trk>B</trk></gpx>",
    ]);
    assert_eq!(result, Ok(()));
    assert_eq!(out, "<gpx><metadata>M</metadata><trk>A</trk><trk>B</trk></gpx>");
}

#[test]
fn single_input_without_tracks_is_unchanged() {
    let doc = "<?xml version=\"1.0\"?>\n<gpx version=\"1.1\">\n  <metadata><name>n</name></metadata>\n  <wpt lat=\"1\" lon=\"2\"/>\n</gpx>\n";
    let (result, out) = join(&[doc]);
    assert_eq!(result, Ok(()));
    assert_eq!(out, doc);
}

#[test]
fn template_alone_is_unchanged() {
    let doc = "<?xml version=\"1.0\" encoding=\"utf-8\"?>\n<!DOCTYPE gpx>\n<gpx creator=\"me\">\n<!-- note -->\n<metadata><name><![CDATA[a b]]></name></metadata>\n<trk><name>one &amp; only</name><trkseg><trkpt lat=\"1\" lon=\"2\"><ele>3</ele></trkpt></trkseg></trk>\n<?pi data?>\n</gpx>\n";
    let (result, out) = join(&[doc]);
    assert_eq!(result, Ok(()));
    assert_eq!(out, doc);
}

#[test]
fn markup_characters_in_cdata_come_back_escaped() {
    let (result, out) = join(&["<gpx><![CDATA[a < b]]></gpx>"]);
    assert_eq!(result, Ok(()));
    assert_eq!(out, "<gpx><![CDATA[a &lt; b]]></gpx>");
}

#[test]
fn tracks_follow_in_source_order() {
    let (result, out) = join(&[
        "<gpx><trk>t0</trk><trk>t1</trk></gpx>",
        "<gpx><trk>a0</trk><trk>a1</trk></gpx>",
        "<gpx><trk>b0</trk></gpx>",
        "<gpx><trk>c0</trk><trk>c1</trk><trk>c2</trk></gpx>",
    ]);
    assert_eq!(result, Ok(()));
    assert_eq!(
        out,
        "<gpx><trk>t0</trk><trk>t1</trk><trk>a0</trk><trk>a1</trk><trk>b0</trk><trk>c0</trk><trk>c1</trk><trk>c2</trk></gpx>"
    );
}

#[test]
fn one_contributor_comes_before_the_closing_tag() {
    let (result, out) = join(&["<gpx>\n<trk>t</trk>\n</gpx>\n", "<gpx>\n<trk>c</trk>\n</gpx>\n"]);
    assert_eq!(result, Ok(()));
    assert_eq!(out, "<gpx>\n<trk>t</trk>\n<trk>c</trk></gpx>\n");
}

#[test]
fn contributor_without_tracks_adds_nothing() {
    let (result, out) = join(&[
        "<gpx><trk>A</trk></gpx>",
        "<gpx><metadata>M2</metadata><wpt lat=\"1\" lon=\"2\"><name>w</name></wpt></gpx>",
    ]);
    assert_eq!(result, Ok(()));
    assert_eq!(out, "<gpx><trk>A</trk></gpx>");
}

#[test]
fn non_track_content_of_contributors_is_dropped() {
    let (result, out) = join(&[
        "<gpx><metadata>M</metadata></gpx>",
        "<?xml version=\"1.0\"?><!-- c --><gpx a=\"b\"> <metadata>M2</metadata><wpt lat=\"1\" lon=\"2\"/><trk>B</trk>text<rte><rtept/></rte><trk>C</trk> </gpx>trailing",
    ]);
    assert_eq!(result, Ok(()));
    assert_eq!(out, "<gpx><metadata>M</metadata><trk>B</trk><trk>C</trk></gpx>");
}

#[test]
fn whole_track_subtree_is_kept() {
    let (result, out) = join(&[
        "<gpx></gpx>",
        "<gpx><trk a=\"1\"><name>n</name><!-- c --><trkseg><trkpt lat=\"1\" lon=\"2\"/><![CDATA[x]]></trkseg><trk>inner</trk></trk></gpx>",
    ]);
    assert_eq!(result, Ok(()));
    assert_eq!(
        out,
        "<gpx><trk a=\"1\"><name>n</name><!-- c --><trkseg><trkpt lat=\"1\" lon=\"2\"/><![CDATA[x]]></trkseg><trk>inner</trk></trk></gpx>"
    );
}

#[test]
fn track_below_another_container_is_not_a_track() {
    let (result, out) = join(&[
        "<gpx></gpx>",
        "<gpx><extensions><trk>hidden</trk></extensions><other><gpx><trk>deep</trk></gpx></other></gpx>",
    ]);
    assert_eq!(result, Ok(()));
    assert_eq!(out, "<gpx></gpx>");
}

#[test]
fn self_closing_track_of_a_contributor_is_dropped() {
    let (result, out) = join(&["<gpx><trk/></gpx>", "<gpx><trk/><trk>B</trk></gpx>"]);
    assert_eq!(result, Ok(()));
    assert_eq!(out, "<gpx><trk/><trk>B</trk></gpx>");
}

#[test]
fn contributor_with_another_root_contributes_nothing() {
    let (result, out) = join(&["<gpx><trk>A</trk></gpx>", "<kml><trk>B</trk></kml>"]);
    assert_eq!(result, Ok(()));
    assert_eq!(out, "<gpx><trk>A</trk></gpx>");
}

#[test]
fn template_tail_follows_the_closing_tag() {
    let (result, out) = join(&[
        "<gpx><trk>A</trk></gpx>\n<!-- end --><extra>e</extra>\n",
        "<gpx><trk>B</trk></gpx>\n<!-- dropped -->",
    ]);
    assert_eq!(result, Ok(()));
    assert_eq!(out, "<gpx><trk>A</trk><trk>B</trk></gpx>\n<!-- end --><extra>e</extra>\n");
}

#[test]
fn output_is_appended_to_the_destination() {
    let mut out = b"kept".to_vec();
    let sources = vec![b"<gpx>x</gpx>".to_vec()];
    assert_eq!(join_gpx(&sources, &mut out), Ok(()));
    assert_eq!(out, b"kept<gpx>x</gpx>".to_vec());
}

#[test]
fn end_tag_with_trailing_space_is_normalised() {
    let (result, out) = join(&["<gpx ><trk >A</trk ></gpx >"]);
    assert_eq!(result, Ok(()));
    assert_eq!(out, "<gpx ><trk >A</trk></gpx>");
}

#[test]
fn no_sources_is_a_missing_root_close() {
    let (result, out) = join(&[]);
    assert_eq!(result, Err(MergeError::MissingTemplateRootClose));
    assert_eq!(out, "");
}

#[test]
fn empty_template_is_a_missing_root_close() {
    let (result, out) = join(&["", "<gpx><trk>B</trk></gpx>"]);
    assert_eq!(result, Err(MergeError::MissingTemplateRootClose));
    assert_eq!(out, "");
}

#[test]
fn template_with_another_root_never_reaches_the_boundary() {
    let template = "<kml><trk>A</trk></kml>";
    let (result, out) = join(&[template]);
    assert_eq!(result, Err(MergeError::MissingTemplateRootClose));
    assert_eq!(out, template);
}

#[test]
fn template_with_another_root_fails_before_contributors_are_read() {
    let (result, out) = join(&["<GPX><trk>A</trk></GPX>", "<gpx><trk>B</trk></gpx>"]);
    assert_eq!(result, Err(MergeError::MissingTemplateRootClose));
    assert_eq!(out, "<GPX><trk>A</trk></GPX>");
}

#[test]
fn unclosed_template_root_is_a_missing_root_close() {
    let (result, out) = join(&["<gpx><trk>A</trk>"]);
    assert_eq!(result, Err(MergeError::MissingTemplateRootClose));
    assert_eq!(out, "<gpx><trk>A</trk>");
}

#[test]
fn later_gpx_root_is_taken_as_the_boundary() {
    let (result, out) = join(&["<kml>k</kml><gpx>g</gpx>", "<gpx><trk>B</trk></gpx>"]);
    assert_eq!(result, Ok(()));
    assert_eq!(out, "<kml>k</kml><gpx>g<trk>B</trk></gpx>");
}

#[test]
fn stray_end_tag_in_template_is_a_mismatch() {
    let (result, out) = join(&["<gpx><trk>A</trk></trk></gpx>"]);
    assert_eq!(result, Err(mismatch(0, Some("gpx"), "trk")));
    assert_eq!(out, "<gpx><trk>A</trk>");
}

#[test]
fn crossed_tags_in_template_are_a_mismatch() {
    let (result, out) = join(&["<gpx><a><b></a></b></gpx>"]);
    assert_eq!(result, Err(mismatch(0, Some("b"), "a")));
    assert_eq!(out, "<gpx><a><b>");
}

#[test]
fn end_tag_with_nothing_open_is_a_mismatch() {
    let (result, out) = join(&["</gpx>"]);
    assert_eq!(result, Err(mismatch(0, None, "gpx")));
    assert_eq!(out, "");
}

#[test]
fn wrong_end_tag_for_the_root_is_a_mismatch() {
    let (result, out) = join(&["<gpx>x</gpy>"]);
    assert_eq!(result, Err(mismatch(0, Some("gpx"), "gpy")));
    assert_eq!(out, "<gpx>x");
}

#[test]
fn stray_end_tag_in_contributor_is_a_mismatch() {
    let (result, out) =
        join(&["<gpx><trk>A</trk></gpx>", "<gpx><trk>B</trk></trk><trk>C</trk></gpx>"]);
    assert_eq!(result, Err(mismatch(1, Some("gpx"), "trk")));
    assert_eq!(out, "<gpx><trk>A</trk><trk>B</trk>");
}

#[test]
fn crossed_tags_in_second_contributor_are_a_mismatch() {
    let (result, out) = join(&[
        "<gpx><trk>A</trk></gpx>",
        "<gpx><trk>B</trk></gpx>",
        "<gpx><a><b></a></b></gpx>",
        "<gpx><trk>D</trk></gpx>",
    ]);
    assert_eq!(result, Err(mismatch(2, Some("b"), "a")));
    assert_eq!(out, "<gpx><trk>A</trk><trk>B</trk>");
}

#[test]
fn crossed_tags_outside_tracks_in_contributor_are_a_mismatch() {
    let (result, _) = join(&["<gpx></gpx>", "<gpx><metadata><name></metadata></name></gpx>"]);
    assert_eq!(result, Err(mismatch(1, Some("name"), "metadata")));
}

#[test]
fn stray_end_tag_after_contributor_root_is_a_mismatch() {
    let (result, out) = join(&["<gpx></gpx>", "<gpx><trk>B</trk></gpx></gpx>"]);
    assert_eq!(result, Err(mismatch(1, None, "gpx")));
    assert_eq!(out, "<gpx><trk>B</trk>");
}

#[test]
fn stray_end_tag_in_template_tail_is_a_mismatch() {
    let (result, out) = join(&["<gpx>x</gpx><a></a></b>", "<gpx><trk>B</trk></gpx>"]);
    assert_eq!(result, Err(mismatch(0, None, "b")));
    assert_eq!(out, "<gpx>x<trk>B</trk></gpx><a></a>");
}

#[test]
fn malformed_template_is_a_parse_error() {
    let (result, out) = join(&["<gpx><trk>A</trk><!-- never closed"]);
    assert_eq!(
        result,
        Err(MergeError::Parse {
            source: 0,
            message: "Unexpected EOF during reading Comment.".to_string(),
        })
    );
    assert_eq!(out, "<gpx><trk>A</trk>");
}

#[test]
fn malformed_contributor_is_a_parse_error() {
    let (result, out) = join(&[
        "<gpx><trk>A</trk></gpx>",
        "<gpx><trk>B</trk></gpx>",
        "<gpx><trk>C<![CDATA[ never closed",
    ]);
    assert_eq!(
        result,
        Err(MergeError::Parse {
            source: 2,
            message: "Unexpected EOF during reading CData.".to_string(),
        })
    );
    assert_eq!(out, "<gpx><trk>A</trk><trk>B</trk><trk>C");
}

#[test]
fn malformed_template_tail_is_a_parse_error() {
    let (result, out) = join(&["<gpx>x</gpx><!oops>", "<gpx><trk>B</trk></gpx>"]);
    assert_eq!(
        result,
        Err(MergeError::Parse {
            source: 0,
            message: "Only Comment, CDATA and DOCTYPE nodes can start with a '!'".to_string(),
        })
    );
    assert_eq!(out, "<gpx>x<trk>B</trk></gpx>");
}

#[test]
fn contributor_after_a_failed_one_is_not_read() {
    let (result, out) =
        join(&["<gpx></gpx>", "<gpx><trk>B</x>", "<gpx><trk>C</trk></gpx>"]);
    assert_eq!(result, Err(mismatch(1, Some("trk"), "x")));
    assert_eq!(out, "<gpx><trk>B");
}
