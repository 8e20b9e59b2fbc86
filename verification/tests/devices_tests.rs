use media_engine::devices::parse_wpctl_section;

fn listing() -> String {
    [
        "PipeWire 'pipewire-0' [1.0.5]",
        "Audio",
        " \u{251c}\u{2500} Devices:",
        " \u{2502}      41. Built-in Audio                    [alsa]",
        " \u{2502}",
        " \u{251c}\u{2500} Sinks:",
        " \u{2502}  *   55. Built-in Audio Stereo             [vol: 0.74]",
        " \u{2502}      61. HDMI Output                       [vol: 1.00]",
        " \u{2502}",
        " \u{251c}\u{2500} Sources:",
        " \u{2502}  *   63. Built-in Microphone               [vol: 1.00]",
        " \u{2502}",
        " \u{2514}\u{2500} Streams:",
        " \u{2502}      88. Music Player",
        "Video",
        " \u{251c}\u{2500} Sinks:",
        " \u{2502}      99. Fake Video Sink                   [vol: 0.50]",
        "",
    ]
    .join("\n")
}

#[test]
fn sinks_are_parsed_with_default_mark() {
    let out = listing().as_bytes().to_vec();
    let devices = parse_wpctl_section(&out, &b"Sinks".to_vec());
    assert_eq!(devices.len(), 2);
    assert_eq!(devices[0].id, b"55".to_vec());
    assert_eq!(devices[0].name, b"Built-in Audio Stereo".to_vec());
    assert!(devices[0].is_default);
    assert_eq!(devices[1].id, b"61".to_vec());
    assert_eq!(devices[1].name, b"HDMI Output".to_vec());
    assert!(!devices[1].is_default);
}

#[test]
fn sources_stop_at_next_section() {
    let out = listing().as_bytes().to_vec();
    let devices = parse_wpctl_section(&out, &b"Sources".to_vec());
    assert_eq!(devices.len(), 1);
    assert_eq!(devices[0].id, b"63".to_vec());
    assert_eq!(devices[0].name, b"Built-in Microphone".to_vec());
    assert!(devices[0].is_default);
}

#[test]
fn video_block_is_ignored() {
    // The Video block has a Sinks section too, but it lies outside the
    // Audio block and must not leak into the audio device list.
    let out = listing().as_bytes().to_vec();
    let devices = parse_wpctl_section(&out, &b"Sinks".to_vec());
    assert!(devices.iter().all(|d| d.id != b"99".to_vec()));
}

#[test]
fn lines_without_volume_tag_are_not_devices() {
    let out = listing().as_bytes().to_vec();
    let devices = parse_wpctl_section(&out, &b"Streams".to_vec());
    assert_eq!(devices.len(), 0);
}

#[test]
fn empty_listing_has_no_devices() {
    let devices = parse_wpctl_section(&Vec::new(), &b"Sinks".to_vec());
    assert_eq!(devices.len(), 0);
}

#[test]
fn crlf_lines_parse_like_lf_lines() {
    let text = listing().replace('\n', "\r\n");
    let devices = parse_wpctl_section(&text.as_bytes().to_vec(), &b"Sources".to_vec());
    assert_eq!(devices.len(), 1);
    assert_eq!(devices[0].name, b"Built-in Microphone".to_vec());
}
