use absolute_cinema::subtitles::vtt::{parse_vtt, try_parse_vtt};

/// The parser as the original program wrote it (times in whole seconds).
fn reference(content: &str) -> Vec<(u64, u64, String)> {
    fn time(s: &str) -> u64 {
        let parts: Vec<&str> = s.split(&[':', '.'][..]).collect();
        let h: u64 = parts[0].parse().unwrap();
        let m: u64 = parts[1].parse().unwrap();
        let s: u64 = parts[2].parse().unwrap();
        let ms: u64 = parts[3].parse().unwrap();
        h * 3600 + m * 60 + s + ms / 1000
    }
    let mut subs = Vec::new();
    let mut lines = content.lines().peekable();
    while let Some(&line) = lines.peek() {
        if line.trim().is_empty() {
            lines.next();
            break;
        }
        if line.contains("-->") {
            break;
        }
        lines.next();
    }
    while lines.peek().is_some() {
        if let Some(&line) = lines.peek() {
            if line.trim().parse::<usize>().is_ok() {
                lines.next();
            }
        }
        if let Some(times) = lines.next() {
            if let Some((start, end)) = times.split_once(" --> ") {
                let start = time(start);
                let end = time(end);
                let mut text_lines = Vec::new();
                while let Some(&line) = lines.peek() {
                    if line.trim().is_empty() {
                        break;
                    }
                    text_lines.push(lines.next().unwrap());
                }
                subs.push((start, end, text_lines.join("\n")));
            }
        }
        let _ = lines.next();
    }
    subs
}

fn parsed(content: &str) -> Vec<(u64, u64, String)> {
    parse_vtt(content).inner.into_iter().map(|s| (s.start, s.end, s.text)).collect()
}

const SAMPLE: &str = "WEBVTT\n\n1\n00:00:01.000 --> 00:00:04.500\nHello there\nsecond line\n\n2\n00:01:05.999 --> 01:00:00.000\nBye\n";

#[test]
fn reads_cues() {
    assert_eq!(
        parsed(SAMPLE),
        vec![
            (1, 4, "Hello there\nsecond line".to_string()),
            (65, 3600, "Bye".to_string()),
        ]
    );
}

#[test]
fn agrees_with_the_reference_reader() {
    let samples = [
        SAMPLE,
        "",
        "WEBVTT",
        "WEBVTT\r\nKind: captions\r\n\r\n00:00:00.000 --> 00:00:02.000\r\nwindows\r\nlines\r\n",
        "00:00:03.000 --> 00:00:04.000\nno header\n\n00:00:05.000 --> 00:00:06.000\nsecond",
        "WEBVTT\n\nNOTE a comment\nmore\n\n00:00:07.000 --> 00:00:08.000\ntext\n\n\n\n  42  \n00:00:09.000 --> 00:00:10.000\n",
        "WEBVTT\n\n+7\n00:00:01.000 --> 00:00:02.000\n\u{3000}\nafter blank\n",
        "WEBVTT\n\n00:00:01.000 --> 00:00:02.000\na\n00:00:03.000 --> 00:00:04.000\nb\n",
    ];
    for sample in samples {
        assert_eq!(parsed(sample), reference(sample), "sample {:?}", sample);
    }
}

#[test]
fn unreadable_times_are_refused() {
    assert!(try_parse_vtt("WEBVTT\n\n00:01.000 --> 00:02.000\nshort time\n").is_none());
    assert!(try_parse_vtt("WEBVTT\n\n00:00:01.000 --> 00:00:02.000 align:start\nsettings\n").is_none());
    assert!(try_parse_vtt("WEBVTT\n\n00:00:xx.000 --> 00:00:02.000\nnot a number\n").is_none());
    assert!(try_parse_vtt("WEBVTT\n\n99999999999999999:00:00.000 --> 00:00:02.000\ntoo big\n").is_none());
    assert!(try_parse_vtt(SAMPLE).is_some());
}

#[test]
fn milliseconds_round_down_to_seconds() {
    let subs = parsed("WEBVTT\n\n00:00:00.999 --> 00:00:01.1999\nx\n");
    assert_eq!(subs, vec![(0, 2, "x".to_string())]);
}
