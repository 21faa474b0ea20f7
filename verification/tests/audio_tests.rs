use accent_dict::audio::Audio;
use accent_dict::audio::AudioId;
use accent_dict::audio::AudioResource;
use accent_dict::audio::Nrsc;
use accent_dict::audio::Rsc;
use accent_dict::audio::parse_u32;
use accent_dict::error::Error;
use accent_dict::lookup::Query;
use accent_dict::lookup::classify_query;

fn chars(s: &str) -> Vec<char> {
    s.chars().collect()
}

#[test]
fn numeric_keys_parse_exactly() {
    assert_eq!(parse_u32(&chars("0")), Some(0));
    assert_eq!(parse_u32(&chars("42")), Some(42));
    assert_eq!(parse_u32(&chars("+42")), Some(42));
    assert_eq!(parse_u32(&chars("4294967295")), Some(u32::MAX));
    assert_eq!(parse_u32(&chars("4294967296")), None);
    assert_eq!(parse_u32(&chars("")), None);
    assert_eq!(parse_u32(&chars("+")), None);
    assert_eq!(parse_u32(&chars("12a")), None);
    assert_eq!(parse_u32(&chars("-1")), None);
}

#[test]
fn uninitialized_store_reports_it() {
    let audio = Audio::new();
    assert!(matches!(audio.get("x"), Err(Error::NotInitialized)));
    assert!(matches!(audio.get_by_idx(0), Err(Error::NotInitialized)));
    assert!(matches!(audio.idx_iter(), Err(Error::NotInitialized)));
}

#[test]
fn string_keyed_store_lookup() {
    let mut audio = Audio::new();
    audio.init(AudioResource::Nrsc(Nrsc::new(vec![
        ("x1".to_string(), vec![1, 2]),
        ("x2".to_string(), vec![3]),
    ])));
    assert_eq!(audio.get("x1").unwrap(), &vec![1, 2]);
    assert_eq!(audio.get("x2").unwrap(), &vec![3]);
    assert!(matches!(audio.get("zz"), Err(Error::NotFound)));
    let (id, bytes) = audio.get_by_idx(1).unwrap();
    assert_eq!(id.id_string(), "x2");
    assert_eq!(bytes, &vec![3]);
    assert_eq!(audio.idx_iter().unwrap(), 0..2);
}

#[test]
fn numeric_keyed_store_lookup() {
    let mut audio = Audio::new();
    audio.init(AudioResource::Rsc(Rsc::new(vec![
        (42, vec![9]),
        (7, vec![8]),
    ])));
    assert_eq!(audio.get("42").unwrap(), &vec![9]);
    assert_eq!(audio.get("7").unwrap(), &vec![8]);
    assert!(matches!(audio.get("8"), Err(Error::NotFound)));
    assert!(matches!(audio.get("abc"), Err(Error::InvalidIndex)));
    let (id, bytes) = audio.get_by_idx(0).unwrap();
    assert_eq!(id.id_string(), "0000000042");
    assert_eq!(bytes, &vec![9]);
    assert!(matches!(audio.get_by_idx(2), Err(Error::NotFound)));
}

#[test]
fn init_selects_once() {
    let mut audio = Audio::new();
    audio.init(AudioResource::Nrsc(Nrsc::new(vec![("a".to_string(), vec![1])])));
    audio.init(AudioResource::Nrsc(Nrsc::new(vec![("b".to_string(), vec![2])])));
    assert_eq!(audio.get("a").unwrap(), &vec![1]);
    assert!(matches!(audio.get("b"), Err(Error::NotFound)));
}

#[test]
fn audio_id_text() {
    assert_eq!(AudioId::Num(0).id_string(), "0000000000");
    assert_eq!(AudioId::Num(42).id_string(), "0000000042");
    assert_eq!(AudioId::Num(u32::MAX).id_string(), "4294967295");
    assert_eq!(AudioId::Str("20170630130152".to_string()).id_string(), "20170630130152");
}

#[test]
fn queries_classify_like_the_lookup() {
    match classify_query("15").unwrap() {
        Query::ByIndex(i) => assert_eq!(i, 14),
        other => panic!("unexpected query: {other:?}"),
    }
    match classify_query("0").unwrap() {
        Query::ByIndex(i) => assert_eq!(i, 0),
        other => panic!("unexpected query: {other:?}"),
    }
    match classify_query("2abc").unwrap() {
        Query::ByIndex(i) => assert_eq!(i, 1),
        other => panic!("unexpected query: {other:?}"),
    }
    match classify_query("ねこ").unwrap() {
        Query::ByKeyword(k) => assert_eq!(k, "ねこ"),
        other => panic!("unexpected query: {other:?}"),
    }
    assert!(matches!(
        classify_query("99999999999999999999999"),
        Err(Error::InvalidIndex)
    ));
}
