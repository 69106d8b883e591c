use chrono::DateTime;
use wyy::date::{format_ymd, getdate, MAX_TIMESTAMP_MILLIS, MIN_TIMESTAMP_MILLIS};
use wyy::library::{favorite_list_id, AccountInfo, Track, Tracks};
use wyy::login::{login_qr_svg, qr_login_confirmed};
use wyy::storage::{cache_path, cookie_record, restored_cookie_path};

fn track(name: &str, author: &str, id: u64) -> Track {
    Track::new(name.to_string(), format!("http://img/{}", id), author.to_string(), id)
}

#[test]
fn partition_by_author_keeps_order() {
    let tracks = Tracks::from_tracks(vec![
        track("a", "me", 1),
        track("b", "other", 2),
        track("c", "me", 3),
        track("d", "else", 4),
    ]);
    let (own, others) = tracks.partition_by_author(&"me".to_string());
    assert_eq!(own.vec.iter().map(|t| t.id).collect::<Vec<_>>(), vec![1, 3]);
    assert_eq!(others.vec.iter().map(|t| t.id).collect::<Vec<_>>(), vec![2, 4]);
    let (none, all) = Tracks::default().partition_by_author(&"me".to_string());
    assert!(none.vec.is_empty() && all.vec.is_empty());
}

#[test]
fn tracks_extend_appends() {
    let mut t = Tracks::from_tracks(vec![track("a", "x", 1)]);
    t.extend(vec![track("b", "y", 2), track("c", "z", 3)]);
    assert_eq!(t.vec.iter().map(|t| t.id).collect::<Vec<_>>(), vec![1, 2, 3]);
    let d = t.vec[1].duplicate();
    assert_eq!(d, t.vec[1]);
    assert_eq!(d.cover_url, "http://img/2");
}

#[test]
fn favorite_list_lookup() {
    let lists = vec![
        track("其他歌单", "me", 1),
        track("别人喜欢的音乐", "someone", 2),
        track("me喜欢的音乐", "me", 3),
        track("喜欢的音乐 2", "me", 4),
    ];
    assert_eq!(favorite_list_id(&lists, &"me".to_string()), Some(3));
    assert_eq!(favorite_list_id(&lists, &"someone".to_string()), Some(2));
    assert_eq!(favorite_list_id(&lists, &"nobody".to_string()), None);
    assert_eq!(favorite_list_id(&vec![], &"me".to_string()), None);
    assert_eq!(favorite_list_id(&vec![track("喜欢的", "me", 9)], &"me".to_string()), None);
}

#[test]
fn qr_login_status() {
    assert!(qr_login_confirmed(803));
    assert!(!qr_login_confirmed(801));
    assert!(!qr_login_confirmed(802));
    assert!(!qr_login_confirmed(800));
}

#[test]
fn account_info_default() {
    let a = AccountInfo::default();
    assert_eq!(a.uid, 0);
    assert!(a.name.is_empty() && a.avatar_url.is_empty());
}

#[test]
fn dates_render_like_chrono() {
    assert_eq!(format_ymd(2024, 3, 7), "2024-03-07");
    assert_eq!(format_ymd(999, 12, 31), "0999-12-31");
    assert_eq!(format_ymd(0, 1, 1), "0000-01-01");
    assert_eq!(format_ymd(12345, 1, 1), "+12345-01-01");
    assert_eq!(format_ymd(-5, 1, 1), "-0005-01-01");
    assert_eq!(format_ymd(-262143, 1, 1), "-262143-01-01");
}

#[test]
fn getdate_local_date() {
    // noon UTC on 2024-01-01: the local date is that day or the next one
    let d = getdate(1_704_110_400_000);
    assert!(d == "2024-01-01" || d == "2024-01-02", "{}", d);
    let bytes = d.as_bytes();
    assert_eq!(d.len(), 10);
    assert_eq!(bytes[4], b'-');
    assert_eq!(bytes[7], b'-');
}

#[test]
fn getdate_range_ends() {
    let lo = getdate(MIN_TIMESTAMP_MILLIS);
    assert!(lo.starts_with('-'), "{}", lo);
    let hi = getdate(MAX_TIMESTAMP_MILLIS);
    assert!(hi.starts_with('+'), "{}", hi);
}

#[test]
fn cache_and_cookie_text() {
    assert_eq!(cache_path(0), "cache/0");
    assert_eq!(cache_path(1965786312), "cache/1965786312");
    assert_eq!(
        cookie_record("MUSIC_U", "abc", "/"),
        "MUSIC_U=abc; Path=/; Domain=music.163.com; Max-Age=31536000"
    );
    assert_eq!(restored_cookie_path(Some("/api")), "/api");
    assert_eq!(restored_cookie_path(None), "/");
}

#[test]
fn login_qr_image() {
    let svg = login_qr_svg("https://music.163.com/login?codekey=abc").unwrap();
    assert!(svg.contains("<svg"));
    assert!(svg.contains("<desc>wyy</desc>"));
    assert!(svg.contains("width=\"140\""));
    assert!(svg.ends_with("</svg>"));
    assert_eq!(login_qr_svg("https://music.163.com/login?codekey=abc").unwrap(), svg);
    assert_ne!(login_qr_svg("https://music.163.com/login?codekey=abd").unwrap(), svg);
    // far too much data for a QR code of 140 pixels
    assert!(login_qr_svg(&"x".repeat(2500)).is_none());
}

#[test]
fn chrono_range_matches_the_bounds() {
    assert!(DateTime::from_timestamp_millis(MIN_TIMESTAMP_MILLIS).is_some());
    assert!(DateTime::from_timestamp_millis(MIN_TIMESTAMP_MILLIS - 1).is_none());
    assert!(DateTime::from_timestamp_millis(MAX_TIMESTAMP_MILLIS).is_some());
    assert!(DateTime::from_timestamp_millis(MAX_TIMESTAMP_MILLIS + 1).is_none());
    assert_eq!(
        DateTime::from_timestamp_millis(MIN_TIMESTAMP_MILLIS).unwrap().format("%Y-%m-%d").to_string(),
        "-262143-01-01"
    );
}

#[test]
fn getdate_is_within_a_day_of_utc() {
    // 2024-02-29 00:00 UTC: the local date is the day before or that day
    let d = getdate(1_709_164_800_000);
    assert!(d == "2024-02-28" || d == "2024-02-29", "{}", d);
    let e = getdate(0);
    assert!(e == "1969-12-31" || e == "1970-01-01", "{}", e);
}
