use std::collections::hash_map::DefaultHasher;
use std::hash::{Hash, Hasher};

use worker_registry::decimal::{push_decimal, to_decimal};
use worker_registry::fanout::{children, digest, fanout, FANOUT_MODULUS, TEXT_END};
use worker_registry::name::Name;

fn standard_hash_of_text(text: &str) -> u64 {
    let mut hasher = DefaultHasher::new();
    text.to_string().hash(&mut hasher);
    hasher.finish()
}

fn sample_names() -> Vec<&'static str> {
    vec!["", "A", "B", "0", "9", "A.0", "A.1", "0.1.0.1", "worker", "ghost", "é", "名前", "a b\tc"]
}

#[test]
fn decimal_of_zero_is_one_digit() {
    assert_eq!(to_decimal(0), "0");
}

#[test]
fn decimal_of_single_digits() {
    let expected = vec!["0", "1", "2", "3", "4", "5", "6", "7", "8", "9"];
    for n in 0..10u64 {
        assert_eq!(to_decimal(n), expected[n as usize]);
    }
}

#[test]
fn decimal_of_larger_numbers() {
    assert_eq!(to_decimal(10), "10");
    assert_eq!(to_decimal(99), "99");
    assert_eq!(to_decimal(100), "100");
    assert_eq!(to_decimal(1_000_000), "1000000");
    assert_eq!(to_decimal(9_007_199_254_740_993), "9007199254740993");
}

#[test]
fn decimal_of_the_largest_number() {
    assert_eq!(to_decimal(u64::MAX), "18446744073709551615");
}

#[test]
fn decimal_agrees_with_standard_formatting() {
    let mut n: u64 = 1;
    for _ in 0..64 {
        assert_eq!(to_decimal(n), format!("{}", n));
        assert_eq!(to_decimal(n - 1), format!("{}", n - 1));
        n = n.wrapping_mul(2);
        if n == 0 {
            break;
        }
    }
}

#[test]
fn push_decimal_appends_to_what_is_there() {
    let mut text = String::from("size ");
    push_decimal(&mut text, 42);
    assert_eq!(text, "size 42");
    push_decimal(&mut text, 0);
    assert_eq!(text, "size 420");
}

#[test]
fn name_keeps_its_text() {
    let name = Name::new(String::from("A"));
    assert_eq!(name.as_str(), "A");
    assert_eq!(name.to_string(), "A");
    assert_eq!(Name::from_str("A.0").as_str(), "A.0");
    assert_eq!(Name::from_str("").as_str(), "");
}

#[test]
fn names_are_equal_by_text() {
    assert_eq!(Name::from_str("A"), Name::new(String::from("A")));
    assert_ne!(Name::from_str("A"), Name::from_str("B"));
    assert_ne!(Name::from_str("A"), Name::from_str("A.0"));
    assert_ne!(Name::from_str("A"), Name::from_str("a"));
}

#[test]
fn clone_of_a_name_is_the_same_name() {
    let name = Name::from_str("A.1");
    let copy = name.clone();
    assert_eq!(copy, name);
    assert_eq!(copy.as_str(), "A.1");
}

#[test]
fn name_from_index_is_the_numeral() {
    for i in 0..10u64 {
        assert_eq!(Name::from_index(i).as_str(), format!("{}", i));
    }
    assert_eq!(Name::from_index(0).as_str(), "0");
    assert_eq!(Name::from_index(9).as_str(), "9");
    assert_eq!(Name::from_index(10).as_str(), "10");
}

#[test]
fn child_name_is_parent_dot_index() {
    let parent = Name::from_str("A");
    assert_eq!(parent.child(0).as_str(), "A.0");
    assert_eq!(parent.child(1).as_str(), "A.1");
    assert_eq!(parent.child(12).as_str(), "A.12");
    assert_eq!(parent.as_str(), "A");
}

#[test]
fn child_names_nest() {
    let grandchild = Name::from_str("7").child(1).child(0);
    assert_eq!(grandchild.as_str(), "7.1.0");
    assert_eq!(Name::from_str("").child(0).as_str(), ".0");
}

#[test]
fn fanout_modulus_is_three() {
    assert_eq!(FANOUT_MODULUS, 3);
    assert_eq!(TEXT_END, 0xff);
}

#[test]
fn fanout_is_below_the_modulus() {
    for text in sample_names() {
        assert!(fanout(&Name::from_str(text)) < 3);
    }
    for i in 0..200u64 {
        assert!(fanout(&Name::from_index(i)) <= 2);
    }
}

#[test]
fn fanout_is_the_same_every_time() {
    for text in sample_names() {
        let first = fanout(&Name::from_str(text));
        let second = fanout(&Name::from_str(text));
        let third = fanout(&Name::new(String::from(text)).clone());
        assert_eq!(first, second);
        assert_eq!(first, third);
    }
}

#[test]
fn digest_is_the_standard_hash_of_the_text() {
    for text in sample_names() {
        assert_eq!(digest(&Name::from_str(text)), standard_hash_of_text(text));
    }
}

#[test]
fn digest_is_the_standard_hash_of_the_name() {
    for text in sample_names() {
        let name = Name::from_str(text);
        let mut hasher = DefaultHasher::new();
        name.hash(&mut hasher);
        assert_eq!(digest(&name), hasher.finish());
    }
}

#[test]
fn digest_feeds_the_bytes_and_then_the_end_mark() {
    let mut hasher = DefaultHasher::new();
    hasher.write("A.1".as_bytes());
    hasher.write(&[0xff]);
    assert_eq!(digest(&Name::from_str("A.1")), hasher.finish());
    let mut without_mark = DefaultHasher::new();
    without_mark.write("A.1".as_bytes());
    assert_ne!(digest(&Name::from_str("A.1")), without_mark.finish());
}

#[test]
fn fanout_is_the_digest_modulo_three() {
    for text in sample_names() {
        let name = Name::from_str(text);
        assert_eq!(fanout(&name), digest(&name) % 3);
        assert_eq!(fanout(&name), standard_hash_of_text(text) % 3);
    }
}

#[test]
fn every_fanout_occurs() {
    let mut seen = vec![false, false, false];
    for i in 0..200u64 {
        seen[fanout(&Name::from_index(i)) as usize] = true;
    }
    assert_eq!(seen, vec![true, true, true]);
}

#[test]
fn children_are_as_many_as_the_fanout() {
    for text in sample_names() {
        let name = Name::from_str(text);
        assert_eq!(children(&name).len() as u64, fanout(&name));
    }
}

#[test]
fn children_are_named_by_index() {
    for text in sample_names() {
        let name = Name::from_str(text);
        let kids = children(&name);
        for (i, kid) in kids.iter().enumerate() {
            assert_eq!(kid.as_str(), format!("{}.{}", text, i));
            assert_eq!(*kid, name.child(i as u64));
        }
    }
}

#[test]
fn children_are_the_same_every_time() {
    for text in sample_names() {
        assert_eq!(children(&Name::from_str(text)), children(&Name::from_str(text)));
    }
}
