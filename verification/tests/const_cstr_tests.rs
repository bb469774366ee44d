use std::collections::HashMap;
use std::hash::{Hash, Hasher};

use zombiezen_const_cstr::ConstCStr;

fn cstr(text: &str) -> ConstCStr {
    ConstCStr::const_cstr(text)
}

#[test]
fn test() {
    let hello = ConstCStr::from_str_with_nul_unchecked("Hello, World!\0".to_owned());
    assert_eq!(hello.as_str(), "Hello, World!");
    assert_eq!(hello.as_bytes(), &b"Hello, World!"[..]);
    assert_eq!(hello.as_bytes_with_nul(), &b"Hello, World!\0"[..]);
}

#[test]
fn construct_keeps_text() {
    assert_eq!(cstr("foo").as_str(), "foo");
    assert_eq!(cstr("Hello, World!").as_str(), "Hello, World!");
    assert_eq!(cstr("").as_str(), "");
}

#[test]
fn bytes_with_terminator_appends_one_nul() {
    let c = cstr("foo");
    assert_eq!(c.as_bytes_with_nul(), &b"foo\0"[..]);
    assert_eq!(c.as_bytes_with_nul().len(), c.as_bytes().len() + 1);
    assert_eq!(c.as_bytes_with_nul().len(), "foo".len() + 1);
}

#[test]
fn terminator_is_the_only_nul() {
    let c = cstr("some text");
    let with_nul = c.as_bytes_with_nul();
    let n = c.as_bytes().len();
    assert_eq!(with_nul[n], 0);
    for i in 0..n {
        assert_ne!(with_nul[i], 0);
    }
}

#[test]
fn views_are_idempotent() {
    let c = cstr("stable");
    assert_eq!(c.as_str(), c.as_str());
    assert_eq!(c.as_bytes(), c.as_bytes());
    assert_eq!(c.as_bytes_with_nul(), c.as_bytes_with_nul());
}

#[test]
fn default_is_the_empty_constant() {
    let d = ConstCStr::default();
    assert_eq!(d, cstr(""));
    assert_eq!(d.as_str(), "");
    assert_eq!(d.as_bytes_with_nul(), &[0u8][..]);
    assert_eq!(d.as_bytes_with_nul().len(), 1);
}

fn hash_of(c: &ConstCStr) -> u64 {
    let mut h = std::collections::hash_map::DefaultHasher::new();
    c.hash(&mut h);
    h.finish()
}

#[test]
fn eq_ord_hash_follow_the_text() {
    assert_eq!(cstr("abc"), cstr("abc"));
    assert_ne!(cstr("abc"), cstr("abd"));
    assert!(cstr("abc") < cstr("abd"));
    assert!(cstr("ab") < cstr("abc"));
    assert!(cstr("") < cstr("a"));
    assert!(cstr("abd") > cstr("abc"));
    assert_eq!(
        cstr("abc").partial_cmp(&cstr("abc")),
        Some(std::cmp::Ordering::Equal)
    );
    assert_eq!(hash_of(&cstr("abc")), hash_of(&cstr("abc")));
}

#[test]
fn reading_to_the_first_nul_reproduces_the_buffer() {
    let c = cstr("Hello, world!");
    let with_nul = c.as_bytes_with_nul();
    let mut read: Vec<u8> = Vec::new();
    for &b in with_nul {
        read.push(b);
        if b == 0 {
            break;
        }
    }
    assert_eq!(&read[..], with_nul);
}

#[test]
fn hello_world_scenario() {
    let c = cstr("Hello, world!");
    assert_eq!(c.as_str(), "Hello, world!");
    assert_eq!(c.as_bytes(), &b"Hello, world!"[..]);
    assert_eq!(c.as_bytes().len(), 13);
    assert_eq!(c.as_bytes_with_nul(), &b"Hello, world!\0"[..]);
    assert_eq!(c.as_bytes_with_nul().len(), 14);
}

#[test]
fn empty_scenario() {
    let c = cstr("");
    assert_eq!(c.as_str(), "");
    assert_eq!(c.as_bytes(), &b""[..]);
    assert_eq!(c.as_bytes_with_nul(), &[0u8][..]);
}

#[test]
fn equal_constants_are_interchangeable_map_keys() {
    let first = cstr("x");
    let second = cstr("x");
    assert_eq!(first, second);
    let mut map: HashMap<ConstCStr, u32> = HashMap::new();
    map.insert(first, 7);
    assert_eq!(map.get(&second), Some(&7));
    map.insert(second, 8);
    assert_eq!(map.len(), 1);
    assert_eq!(map.get(&cstr("x")), Some(&8));
}

#[test]
fn non_ascii_text_round_trips() {
    let text = "héllo wörld";
    let c = cstr(text);
    assert_eq!(c.as_str(), text);
    assert_eq!(c.as_bytes(), text.as_bytes());
    let with_nul = c.as_bytes_with_nul();
    assert_eq!(with_nul.len(), text.len() + 1);
    assert_eq!(with_nul[with_nul.len() - 1], 0);
    for i in 0..with_nul.len() - 1 {
        assert_ne!(with_nul[i], 0);
    }
}

#[test]
fn clone_preserves_the_constant() {
    let c = cstr("copy me");
    let d = c.clone();
    assert_eq!(c, d);
    assert_eq!(d.as_str(), "copy me");
    assert_eq!(d.as_bytes_with_nul(), c.as_bytes_with_nul());
}
