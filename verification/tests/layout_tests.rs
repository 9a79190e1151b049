use keystroke::finger::{finger_label, Finger};
use keystroke::keyboard_layout::{
    char_to_string, de, detect_from_klid, fr, layout, layout_for_klid, layout_id_for, layout_label, no, us,
    LayoutId,
};

#[test]
fn fingers_on_us_layout() {
    let l = us();
    assert_eq!(l.finger_for_char('f'), Finger::LeftIndex);
    assert_eq!(l.finger_for_char('F'), Finger::LeftIndex);
    assert_eq!(l.finger_for_char('j'), Finger::RightIndex);
    assert_eq!(l.finger_for_char(' '), Finger::RightThumb);
    assert_eq!(l.finger_for_char('~'), Finger::LeftPinky);
    assert_eq!(l.finger_for_char('é'), Finger::Any);
    assert_eq!(Finger::Any.as_i32(), -1);
    assert_eq!(Finger::RightPinky.as_i32(), 9);
    assert_eq!(Finger::LeftThumb.as_i32(), 4);
}

#[test]
fn fingers_on_other_layouts() {
    assert_eq!(fr().finger_for_char('a'), Finger::LeftPinky);
    assert_eq!(fr().finger_for_char('q'), Finger::LeftPinky);
    assert_eq!(fr().finger_for_char('m'), Finger::RightPinky);
    assert_eq!(de().finger_for_char('z'), Finger::RightIndex);
    assert_eq!(de().finger_for_char('y'), Finger::LeftPinky);
    assert_eq!(no().finger_for_char('å'), Finger::RightPinky);
    assert_eq!(no().finger_for_char('<'), Finger::LeftPinky);
}

#[test]
fn layout_shapes() {
    for id in [LayoutId::Us, LayoutId::Uk, LayoutId::Fr, LayoutId::De, LayoutId::Es, LayoutId::No] {
        let l = layout(id);
        assert_eq!(l.rows.len(), 5);
        assert_eq!(l.rows[4].len(), 5);
        assert_eq!(l.rows[4][2].width_quarters, 32);
    }
    assert_eq!(us().rows[0].len(), 14);
    assert_eq!(us().name, "US English (QWERTY)");
    assert_eq!(us().rows[2][0].width_quarters, 7);
}

#[test]
fn klid_lookup() {
    assert_eq!(layout_id_for("00000409"), LayoutId::Us);
    assert_eq!(layout_id_for("00000809"), LayoutId::Uk);
    assert_eq!(layout_id_for("0000040c"), LayoutId::Fr);
    assert_eq!(layout_id_for("0000040C"), LayoutId::Fr);
    // Canadian French falls back through its tail to the French family
    assert_eq!(layout_id_for("00000C0C"), LayoutId::Fr);
    assert_eq!(layout_id_for("00010407"), LayoutId::De);
    assert_eq!(layout_id_for("00000807"), LayoutId::De);
    assert_eq!(layout_id_for("0000080A"), LayoutId::Es);
    assert_eq!(layout_id_for("00000814"), LayoutId::No);
    assert_eq!(layout_id_for("00001009"), LayoutId::Us);
    assert_eq!(layout_id_for("00000411"), LayoutId::Us);
    assert_eq!(layout_id_for("409"), LayoutId::Us);
    assert_eq!(layout_id_for(""), LayoutId::Us);
    assert_eq!(layout_for_klid("00000407").klid, "00000407");
}

#[test]
fn detection_outcomes() {
    let d = detect_from_klid(Some("00000407".to_string()));
    assert_eq!(d.layout.klid, "00000407");
    assert!(d.is_exact_match);
    let d = detect_from_klid(Some("00000C0C".to_string()));
    assert_eq!(d.layout.klid, "0000040C");
    assert!(!d.is_exact_match);
    assert_eq!(d.detected_klid.as_deref(), Some("00000C0C"));
    let d = detect_from_klid(None);
    assert_eq!(d.layout.klid, "00000409");
    assert!(!d.is_exact_match);
    assert!(d.detected_klid.is_none());
}

#[test]
fn key_texts_and_labels() {
    assert_eq!(char_to_string('\0'), "");
    assert_eq!(char_to_string('é'), "é");
    assert_eq!(finger_label(Finger::Any), "any");
    assert_eq!(finger_label(Finger::LeftIndex), "left index");
    assert_eq!(finger_label(Finger::RightPinky), "right pinky");
}

#[test]
fn every_layout_is_found_by_its_own_klid() {
    for id in [LayoutId::Us, LayoutId::Uk, LayoutId::Fr, LayoutId::De, LayoutId::Es, LayoutId::No] {
        let klid = layout(id).klid;
        assert_eq!(layout_id_for(&klid), id);
        assert_eq!(layout_id_for(&klid.to_ascii_lowercase()), id);
        let d = detect_from_klid(Some(klid.to_string()));
        assert!(d.is_exact_match);
        assert_eq!(d.layout.klid, klid);
    }
}

#[test]
fn layout_labels() {
    assert_eq!(
        layout_label(&detect_from_klid(None)),
        "US English (QWERTY)  (default \u{2014} detection unavailable)"
    );
    assert_eq!(
        layout_label(&detect_from_klid(Some("00000407".to_string()))),
        "German (QWERTZ)  (KLID 00000407)"
    );
    assert_eq!(
        layout_label(&detect_from_klid(Some("00000C0C".to_string()))),
        "French (AZERTY)  (KLID 00000C0C \u{2014} using fallback)"
    );
}

#[test]
fn no_key_types_the_nul_placeholder() {
    for l in [us(), fr(), de(), no(), layout(LayoutId::Uk), layout(LayoutId::Es)] {
        assert_eq!(l.finger_for_char('\0'), Finger::Any);
    }
    // the keys that carry the placeholder still type their real characters
    assert_eq!(us().finger_for_char('1'), us().finger_for_char('!'));
}
