use wyy::lyric::{build_timeline, get_lrc_millis, parse_lyric_lines, progress_lrc, replace_lrc, strip_lyric_lines, Lyrics};

#[test]
fn tag_millis() {
    assert_eq!(get_lrc_millis("[01:02.5]hi"), Some(62500));
    assert_eq!(get_lrc_millis("[01:02.05]hi"), Some(62050));
    assert_eq!(get_lrc_millis("[01:02.005]hi"), Some(62005));
    assert_eq!(get_lrc_millis("[00:00.000]"), Some(0));
    assert_eq!(get_lrc_millis("[99:59.999]x"), Some(99 * 60000 + 59 * 1000 + 999));
    assert_eq!(get_lrc_millis("[03:25.12]"), Some(205120));
}

#[test]
fn tag_rejected() {
    assert_eq!(get_lrc_millis(""), None);
    assert_eq!(get_lrc_millis("hello"), None);
    assert_eq!(get_lrc_millis("[01:02.]x"), None);
    assert_eq!(get_lrc_millis("[01:02.1234]x"), None);
    assert_eq!(get_lrc_millis("[1:02.12]x"), None);
    assert_eq!(get_lrc_millis("[01:2.12]x"), None);
    assert_eq!(get_lrc_millis("[01-02.12]x"), None);
    assert_eq!(get_lrc_millis("[01:02:12]x"), None);
    assert_eq!(get_lrc_millis("[01:02.12"), None);
    assert_eq!(get_lrc_millis(" [01:02.12]x"), None);
    assert_eq!(get_lrc_millis("[ar:someone]"), None);
    assert_eq!(get_lrc_millis("[0a:02.12]x"), None);
}

#[test]
fn tag_and_text() {
    assert_eq!(progress_lrc("[00:12.34]第一句"), Some((12340, "第一句".to_string())));
    assert_eq!(progress_lrc("[00:12.34]"), Some((12340, String::new())));
    assert_eq!(progress_lrc("[00:12.34][00:13.00]x"), Some((12340, "[00:13.00]x".to_string())));
    assert_eq!(progress_lrc("no tag"), None);
    assert_eq!(replace_lrc("[00:01.1]line".to_string()), Some("line".to_string()));
    assert_eq!(replace_lrc("line".to_string()), None);
}

#[test]
fn readers_agree() {
    for line in ["[00:01.1]a", "[00:01.10]b", "x[00:01.1]", "[00:01.1", "", "[00:01.100]"] {
        let millis = get_lrc_millis(line);
        let split = progress_lrc(line);
        let text = replace_lrc(line.to_string());
        assert_eq!(millis.is_some(), split.is_some());
        assert_eq!(millis.is_some(), text.is_some());
        if let Some((ms, t)) = split {
            assert_eq!(Some(ms), millis);
            assert_eq!(Some(t), text);
        }
    }
}

fn lines(v: &[&str]) -> Vec<String> {
    v.iter().map(|s| s.to_string()).collect()
}

#[test]
fn parse_keeps_only_timed_lines() {
    let raw = lines(&["[ti:song]", "[00:01.00]one", "plain", "[00:05.50]two", "[00:09.9]three"]);
    let timed = parse_lyric_lines(&raw);
    assert_eq!(
        timed,
        vec![(1000, "one".to_string()), (5500, "two".to_string()), (9900, "three".to_string())]
    );
    assert!(parse_lyric_lines(&vec![]).is_empty());
}

#[test]
fn timeline_lines_follow_each_other() {
    let timed = vec![(1000, "one".to_string()), (5500, "two".to_string()), (9900, "three".to_string())];
    let line = build_timeline(timed, 200000);
    assert_eq!(
        line,
        vec![
            (1000, 5500, "one".to_string()),
            (5500, 9900, "two".to_string()),
            (9900, 200000, "three".to_string())
        ]
    );
    assert!(build_timeline(vec![], 5).is_empty());
    let two = build_timeline(vec![(0, "a".to_string()), (10, "b".to_string())], 0);
    assert_eq!(two, vec![(0, 10, "a".to_string()), (10, 0, "b".to_string())]);
}

#[test]
fn strip_translations() {
    let raw = lines(&["[by:x]", "[00:01.00]eins", "[00:02.00]zwei"]);
    assert_eq!(strip_lyric_lines(raw), lines(&["eins", "zwei"]));
}

#[test]
fn assemble_lyrics() {
    let raw = lines(&["[00:01.00]one", "[00:02.00]two"]);
    let timed = parse_lyric_lines(&raw);
    let l = Lyrics::assemble(timed, Some(lines(&["[00:01.00]uno", "x"])), None, 3000);
    assert_eq!(l.lyric, vec![(1000, 2000, "one".to_string()), (2000, 3000, "two".to_string())]);
    assert_eq!(l.tlyric, Some(lines(&["uno"])));
    assert_eq!(l.romalrc, None);
}
