use terminal_control::frame::{
    default_background, default_foreground, Attributes, Cell, Color, Frame,
};
use terminal_control::recording::{
    check_rate, common_canvas, has_non_whitespace_text, markers, read, read_header, samples,
    shot_at, states, video, visible_states, Entry, InputOrigin, Marker, Recording, RecordingError,
    VideoFrame, VideoOptions, Writer, MAX_VIDEO_FPS,
};
use terminal_control::replay::width::count_columns;
use terminal_control::replay::{is_replayable, is_size, Replay};

fn frame(text: &str) -> Frame {
    Frame {
        version: 1,
        cols: 2,
        rows: 1,
        foreground: default_foreground(),
        background: default_background(),
        cursor: None,
        cells: if text.is_empty() {
            Vec::new()
        } else {
            vec![Cell {
                x: 0,
                y: 0,
                text: text.to_owned(),
                width: 1,
                foreground: default_foreground(),
                background: default_background(),
                attributes: Attributes::default(),
            }]
        },
    }
}

fn options() -> VideoOptions {
    VideoOptions {
        fps: 20,
        max_idle: None,
        tail: 0,
        include_startup: false,
    }
}

fn painted_frame() -> Frame {
    let mut parser = Replay::new(1, 2);
    parser.process(b"\x1b[48;2;30;34;42m ");
    parser.frame()
}

fn header() -> Entry {
    Entry::Header {
        version: 1,
        cols: 1,
        rows: 1,
        cell_width: 9,
        cell_height: 18,
    }
}

#[test]
fn idle_compression_caps_sampled_frame_duration() {
    let initial = frame("a");
    let final_frame = frame("b");
    let mut options = options();
    options.max_idle = Some(500);

    let frames = samples(
        &[
            VideoFrame { at_ms: 0, frame: initial },
            VideoFrame { at_ms: 4000, frame: final_frame.clone() },
        ],
        &options,
    );

    assert_eq!(frames.len(), 11);
    assert_eq!(frames.last(), Some(&final_frame));
}

#[test]
fn preserves_input_origin_and_binary_output() {
    let (writer, first) = Writer::new(0, 2, 1, 9, 18).unwrap();
    let events = vec![
        writer.output(1, &[0, 255, b'A']),
        writer.input(InputOrigin::Host, b"reply", 5),
    ];

    let recording = read(Some(first), events).unwrap();
    assert!(matches!(
        &recording.events[0],
        Entry::Output { at_ms: 1, bytes } if bytes == &[0, 255, b'A']
    ));
    assert!(matches!(
        &recording.events[1],
        Entry::Input { origin: InputOrigin::Host, bytes, .. } if bytes == b"reply"
    ));
}

#[test]
fn replays_resized_recordings_on_a_stable_video_canvas() {
    let recording = Recording {
        cols: 2,
        rows: 1,
        cell_width: 9,
        cell_height: 18,
        events: vec![
            Entry::Output { at_ms: 1, bytes: b"a".to_vec() },
            Entry::Resize { at_ms: 2, cols: 4, rows: 2, cell_width: 9, cell_height: 18 },
        ],
    };

    let frames = common_canvas(samples(&states(&recording), &options()));

    assert!(frames.iter().all(|frame| (frame.cols, frame.rows) == (4, 2)));
    assert_eq!(frames.last().unwrap().text(), "a");
}

#[test]
fn preserves_background_only_output_when_no_text_is_recorded() {
    let painted = painted_frame();
    let frames = vec![
        VideoFrame { at_ms: 0, frame: frame("") },
        VideoFrame { at_ms: 1, frame: painted.clone() },
    ];

    assert_eq!(visible_states(&frames, false)[0].frame, painted);
}

#[test]
fn keeps_final_change_between_sampling_ticks() {
    let initial = frame("a");
    let final_frame = frame("b");
    let frames = samples(
        &[
            VideoFrame { at_ms: 0, frame: initial.clone() },
            VideoFrame { at_ms: 1, frame: final_frame.clone() },
        ],
        &options(),
    );

    assert_eq!(frames, vec![initial, final_frame]);
}

#[test]
fn samples_fractional_frame_intervals_without_an_early_transition() {
    let initial = frame("a");
    let final_frame = frame("b");
    let mut options = options();
    options.fps = 30;

    let frames = samples(
        &[
            VideoFrame { at_ms: 0, frame: initial.clone() },
            VideoFrame { at_ms: 100, frame: final_frame.clone() },
        ],
        &options,
    );

    assert_eq!(
        frames,
        vec![initial.clone(), initial.clone(), initial, final_frame]
    );
}

#[test]
fn rejects_excessive_video_frame_rates_before_reading_input() {
    let mut options = options();
    options.fps = MAX_VIDEO_FPS + 1;
    let nothing = Recording { cols: 2, rows: 1, cell_width: 9, cell_height: 18, events: Vec::new() };

    assert_eq!(
        video(&nothing, &options).unwrap_err().message(),
        "--fps must not exceed 1000"
    );
    assert_eq!(
        check_rate(MAX_VIDEO_FPS + 1).unwrap_err().message(),
        "--fps must not exceed 1000"
    );
    assert_eq!(check_rate(0).unwrap_err().message(), "--fps must be greater than zero");
    assert!(check_rate(MAX_VIDEO_FPS).is_ok());
}

#[test]
fn rejects_invalid_geometry_and_repeated_headers() {
    assert!(read(
        Some(Entry::Header { version: 1, cols: 0, rows: 1, cell_width: 9, cell_height: 18 }),
        Vec::new()
    )
    .is_err());
    assert!(read(Some(header()), vec![header()]).is_err());
}

#[test]
fn recordings_start_with_a_known_header() {
    assert_eq!(read_header(None).unwrap_err().message(), "recording is empty");
    assert_eq!(
        read_header(Some(Entry::Output { at_ms: 0, bytes: Vec::new() }))
            .unwrap_err()
            .message(),
        "recording does not start with a header"
    );
    assert_eq!(
        read_header(Some(Entry::Header {
            version: 2,
            cols: 1,
            rows: 1,
            cell_width: 9,
            cell_height: 18
        }))
        .unwrap_err()
        .message(),
        "unsupported recording version 2"
    );
    assert_eq!(
        read(Some(header()), vec![header()]).unwrap_err().message(),
        "recording contains a header after the first line"
    );
    let shrunk = read(
        Some(header()),
        vec![Entry::Resize { at_ms: 1, cols: 0, rows: 1, cell_width: 1, cell_height: 1 }],
    );
    assert!(!shrunk.unwrap().is_playable());
    assert!(matches!(
        read_header(Some(Entry::Header {
            version: 1,
            cols: 1,
            rows: 0,
            cell_width: 9,
            cell_height: 18
        })),
        Err(RecordingError::Geometry)
    ));
    assert!(Writer::new(0, 0, 1, 9, 18).is_err());
    let (writer, _) = Writer::new(0, 1, 1, 9, 18).unwrap();
    assert!(writer.resize(1, 0, 9, 18, 0).is_err());
}

#[test]
fn recorded_instants_count_from_the_start() {
    let (writer, first) = Writer::new(100, 2, 1, 9, 18).unwrap();
    assert!(matches!(
        first,
        Entry::Header { version: 1, cols: 2, rows: 1, cell_width: 9, cell_height: 18 }
    ));
    assert!(matches!(
        writer.input(InputOrigin::Client, b"x", 140),
        Entry::Input { at_ms: 40, .. }
    ));
    assert!(matches!(
        writer.resize(3, 4, 9, 18, 150),
        Ok(Entry::Resize { at_ms: 50, cols: 3, rows: 4, .. })
    ));
}

#[test]
fn only_changes_become_states() {
    let recording = Recording {
        cols: 2,
        rows: 1,
        cell_width: 9,
        cell_height: 18,
        events: vec![
            Entry::Output { at_ms: 3, bytes: b"a".to_vec() },
            Entry::Output { at_ms: 4, bytes: b"\x1b[m".to_vec() },
            Entry::Input { at_ms: 5, origin: InputOrigin::Client, bytes: b"x".to_vec() },
            Entry::Output { at_ms: 6, bytes: b"b".to_vec() },
        ],
    };
    assert!(recording.is_playable());
    let frames = states(&recording);
    let shown = frames
        .iter()
        .map(|state| (state.at_ms, state.frame.text()))
        .collect::<Vec<_>>();
    assert_eq!(
        shown,
        [(0, "".to_owned()), (3, "a".to_owned()), (6, "ab".to_owned())]
    );
    assert_eq!(visible_states(&frames, false).len(), 2);
    assert_eq!(visible_states(&frames, true).len(), 3);
    assert!(has_non_whitespace_text(&frames[1].frame));
    assert!(!has_non_whitespace_text(&painted_frame()));
    assert_eq!(video(&recording, &options()).unwrap().len(), 2);
}

#[test]
fn empty_recordings_have_no_video() {
    let recording = Recording {
        cols: 2,
        rows: 1,
        cell_width: 9,
        cell_height: 18,
        events: Vec::new(),
    };
    assert_eq!(
        video(&recording, &options()).unwrap_err().message(),
        "recording contains no visible output frames"
    );
    let unplayable = Recording { rows: 0, ..recording };
    assert!(!unplayable.is_playable());
    assert_eq!(Color { r: 1, g: 2, b: 3 }.css(), "#010203");
}

#[test]
fn narrow_terminals_hold_narrow_characters() {
    let fire = "\u{1f525}".as_bytes();
    let beyyal = "\u{17d8}".as_bytes();
    assert!(is_replayable(2, 2, fire) && !is_replayable(2, 1, fire));
    assert!(is_replayable(2, 1, "\u{e9}\u{2500}\u{20ac}\u{1f321}".as_bytes()));
    assert!(is_replayable(2, 1, "\x1b]0;\u{1f525}\x07a".as_bytes()));
    assert!(!is_replayable(2, 1, "\u{754c}".as_bytes()));
    assert!(is_replayable(2, 3, beyyal) && !is_replayable(2, 2, beyyal));
    assert!(is_replayable(2, 2, &beyyal[..2]));
    assert!(is_replayable(2, 65527, b"\t") && !is_replayable(2, 65528, b"\t"));
    assert!(is_replayable(2, 65535, b"a"));
    assert!(is_size(1, 1) && is_size(65535, 65535));
    assert!(!is_size(0, 1) && !is_size(1, 0));

    let output = |at_ms: u64, bytes: &[u8]| Entry::Output { at_ms, bytes: bytes.to_vec() };
    let resize = |at_ms: u64, cols: u16| Entry::Resize {
        at_ms,
        cols,
        rows: 2,
        cell_width: 9,
        cell_height: 18,
    };
    let recorded = |cols: u16, events: Vec<Entry>| Recording {
        cols,
        rows: 2,
        cell_width: 9,
        cell_height: 18,
        events,
    };
    let split = recorded(2, vec![output(1, &beyyal[..1]), output(2, &beyyal[1..])]);
    assert!(!split.is_playable());
    let narrowed = recorded(2, vec![output(1, fire), resize(2, 1)]);
    assert!(!narrowed.is_playable());
    let wide = recorded(3, vec![output(1, fire), resize(2, 2)]);
    assert!(wide.is_playable());
    let shown = states(&wide);
    assert_eq!(shown[1].frame.cells[0].text, "\u{1f525}");
    assert_eq!(shown[1].frame.cells[0].width, 2);
    let plain = recorded(1, vec![output(1, b"ab")]);
    assert!(plain.is_playable());
    assert_eq!(states(&plain)[1].frame.text(), "a\nb");
    let corner = recorded(3, vec![output(1, "abcde\u{2764}\u{fe0f}f".as_bytes())]);
    assert!(corner.is_playable());
    assert_eq!(states(&corner)[1].frame.text(), "de\u{2764}\u{fe0f}\nf");
}

#[test]
fn a_single_row_holds_its_text() {
    assert!(is_replayable(1, 2, b"ab") && !is_replayable(1, 2, b"abc"));
    assert!(is_replayable(2, 2, b"abc"));
    assert!(!is_replayable(1, 2, b"\x1b[48;2;30;34;42m ab\x1b[K"));
    assert!(is_replayable(1, 3, b"\x1b[48;2;30;34;42m ab\x1b[K"));
    assert!(is_replayable(1, 2, b"ab\r\ncd\x07\r") && !is_replayable(1, 2, b"ab\ncd"));
    assert!(is_replayable(1, 10, b"ab\tcd") && !is_replayable(1, 9, b"ab\tcd"));
    assert!(is_replayable(1, 2, b"ab\x08\x08cd") && !is_replayable(1, 2, b"ab\x08cd"));
    assert!(is_replayable(1, 4, b"\x1b[2;3Hab") && !is_replayable(1, 4, b"\x1b[2;4Hab"));
    assert!(is_replayable(1, 4, b"\x1b[2Cab") && !is_replayable(1, 4, b"\x1b[3Cab"));
    assert!(is_replayable(1, 4, b"abcd\x1b[2Dcd") && !is_replayable(1, 4, b"abcd\x1b[Dcd"));
    assert!(is_replayable(1, 4, b"ab\x1b[1Gabcd") && is_replayable(1, 4, b"ab\x1b[Eabcd"));
    assert!(is_replayable(1, 4, b"ab\x1b[?25l\x1b[?1002;1006hcd"));
    assert!(is_replayable(1, 4, b"ab\x1b[?6;25habcd") && !is_replayable(1, 4, b"\x1b[?25;47ha"));
    assert!(is_replayable(1, 4, b"ab\x1b[?1049habcd") && !is_replayable(1, 4, b"\x1b[?1049la"));
    assert!(is_replayable(1, 80, b"\x1b]0;t\x07hi"));
    assert!(is_replayable(1, 2, b"\x1b]0;title\x1b\\hi\x1bP1$r0m\x1b\\"));
    assert!(is_replayable(1, 2, b"\x1b7\x1b=\x1b(Bhi") && !is_replayable(1, 2, b"\x1b8h"));
    assert!(is_replayable(1, 2, b"hi\x1bchi") && is_replayable(1, 2, b"\x1b8\rhi"));
    assert!(is_replayable(1, 4, b"\x1b") && is_replayable(1, 4, b"\x1b[3"));
    assert!(is_replayable(1, 4, "ab\r\u{20ac}\u{20ac}e\u{301}x".as_bytes()));
    assert!(is_replayable(1, 4, "\u{754c}\u{754c}".as_bytes()));
    assert!(!is_replayable(1, 3, "\u{754c}\u{754c}".as_bytes()));
    assert!(!is_replayable(1, 4, b"\xc3\xa9\r\xc3\xa9bcd"));
    let mut terminal = Replay::new(1, 2);
    terminal.process(b"\x1b[1mab\r\n\x1b[Kcd");
    assert_eq!(terminal.frame().text(), "cd");
    let folded = Recording {
        cols: 4,
        rows: 2,
        cell_width: 9,
        cell_height: 18,
        events: vec![
            Entry::Output { at_ms: 1, bytes: b"abc".to_vec() },
            Entry::Resize { at_ms: 2, cols: 2, rows: 1, cell_width: 9, cell_height: 18 },
        ],
    };
    assert!(!folded.is_playable());
}

#[test]
fn written_recordings_are_read() {
    let (writer, first) = Writer::new(10, 4, 2, 9, 18).unwrap();
    let events = vec![
        writer.output(1, b"a"),
        writer.input(InputOrigin::Host, b"b", 12),
        writer.resize(5, 3, 9, 18, 13).unwrap(),
    ];
    let recording = read(Some(first), events).unwrap();
    assert_eq!((recording.cols, recording.rows), (4, 2));
    assert_eq!((recording.cell_width, recording.cell_height), (9, 18));
    assert_eq!(recording.events.len(), 3);
    assert!(matches!(
        &recording.events[1],
        Entry::Input { at_ms: 2, origin: InputOrigin::Host, bytes } if bytes == b"b"
    ));
}

#[test]
fn a_recording_shows_any_moment() {
    let recording = Recording {
        cols: 4,
        rows: 2,
        cell_width: 9,
        cell_height: 18,
        events: vec![
            Entry::Output { at_ms: 3, bytes: b"ab".to_vec() },
            Entry::Input { at_ms: 4, origin: InputOrigin::Client, bytes: b"x".to_vec() },
            Entry::Output { at_ms: 6, bytes: b"cd".to_vec() },
            Entry::Resize { at_ms: 8, cols: 2, rows: 2, cell_width: 9, cell_height: 18 },
        ],
    };
    assert!(recording.is_playable());
    assert_eq!(recording.events[1].at(), 4);
    assert_eq!(shot_at(&recording, Some(2), None).unwrap().frame.text(), "");
    let early = shot_at(&recording, Some(5), None).unwrap();
    assert_eq!(early.frame.text(), "ab");
    assert_eq!(early.ansi, b"ab");
    assert_eq!(shot_at(&recording, Some(6), None).unwrap().frame.text(), "abcd");
    let last = shot_at(&recording, None, None).unwrap();
    assert_eq!((last.frame.cols, last.frame.rows), (2, 2));
    assert_eq!(last.frame.text(), "ab\ncd");
    assert_eq!(last.ansi, b"abcd");
    assert_eq!(shot_at(&recording, Some(8), None).unwrap().frame.text(), last.frame.text());
}

#[test]
fn markers_name_moments() {
    let (writer, first) = Writer::new(10, 8, 2, 9, 18).unwrap();
    let events = vec![
        writer.output(1, b"ab"),
        writer.marker("ready", 12),
        writer.output(2, b"cd"),
        writer.marker("done", 15),
        writer.marker("ready", 16),
    ];
    let recording = read(Some(first), events).unwrap();
    assert!(recording.is_playable());
    assert_eq!(
        markers(&recording),
        [
            Marker { at_ms: 2, name: "ready".to_owned() },
            Marker { at_ms: 5, name: "done".to_owned() },
            Marker { at_ms: 6, name: "ready".to_owned() },
        ]
    );
    let ready = shot_at(&recording, None, Some("ready")).unwrap();
    assert_eq!(ready.frame.text(), "ab");
    assert_eq!(ready.ansi, b"ab");
    assert_eq!(shot_at(&recording, None, Some("done")).unwrap().frame.text(), "abcd");
    assert_eq!(
        shot_at(&recording, None, Some("gone")).unwrap_err().message(),
        "recording contains no marker named gone"
    );
    assert_eq!(states(&recording).len(), 3);
}

#[test]
fn characters_take_no_more_columns_than_counted() {
    let mut terminal = vt100::Parser::new(2, 8, 0);
    for code in 0x80..=0x10ffff {
        if let Some(ch) = char::from_u32(code) {
            let mut text = [0; 5];
            text[0] = b'\r';
            let length = ch.encode_utf8(&mut text[1..]).len();
            terminal.process(&text[..1 + length]);
            let drawn = terminal.screen().cursor_position().1;
            assert!(drawn <= count_columns(code), "{code:x}");
            if drawn == 2 {
                assert!(count_columns(code) >= 2);
            }
        }
    }
    assert_eq!(count_columns(0x17d8), 3);
    assert_eq!(count_columns(0x2500), 1);
    assert_eq!(count_columns(0x301), 0);
}

#[test]
fn output_that_fits_is_replayed() {
    let pieces: [&[u8]; 44] = [
        b"a", b"b", b"\x7f", b"\r", b"\n", b"\x08", b"\t", b"\x07", b"\x18", b"\x1b", b"[", b"]", b"P",
        b"?", b";", b"3", b"6", b"H", b"G", b"C", b"D", b"h", b"l", b"m", b"c", b"7", b"8", b"\\",
        b"\xc3\xa9", b"\xe2\x82\xac", b"\xe7\x95\x8c", b"\xf0\x9f\x94\xa5", b"\xe1\x9f\x98",
        b"\xcc\x81", b"\xc3", b"\xe2\x82", b"\x9c", b"\x1b[?1049h", b"\x1b[?47l", b"\x1b[2@", b"\x1b[P",
        b"\x1b[2;3H", b"\x1b[L", b"\x1b]0;t\x07",
    ];
    let mut seed = 1u64;
    let mut random = |limit: usize| {
        seed = seed.wrapping_mul(6364136223846793005).wrapping_add(1442695040888963407);
        (seed >> 33) as usize % limit
    };
    let (mut replayed, mut refused) = (0, 0);
    for _ in 0..120_000 {
        let (rows, cols) = (1 + random(2) as u16, 1 + random(5) as u16);
        let mut output = Vec::new();
        for _ in 0..1 + random(12) {
            output.extend_from_slice(pieces[random(pieces.len())]);
        }
        if !is_replayable(rows, cols, &output) {
            refused += 1;
            continue;
        }
        let split = random(output.len() + 1);
        if !is_replayable(rows, cols, &output[..split]) {
            continue;
        }
        let mut terminal = Replay::new(rows, cols);
        terminal.process(&output[..split]);
        terminal.process(&output[split..]);
        assert_eq!((terminal.frame().rows, terminal.frame().cols), (rows, cols));
        replayed += 1;
    }
    assert!(replayed > 10_000 && refused > 10_000);
}
