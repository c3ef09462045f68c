use rusty_handlebars::AsBool;
use std::collections::{BTreeMap, BTreeSet, HashMap, HashSet, VecDeque};

#[test]
fn the_works() {
    assert!(true.as_bool());
    assert!(!false.as_bool());
    assert!((1 as usize).as_bool());
    assert!(!(0 as usize).as_bool());
    assert!((1 as u8).as_bool());
    assert!(!(0 as u8).as_bool());
    assert!((1 as u16).as_bool());
    assert!(!(0 as u16).as_bool());
    assert!((1 as u32).as_bool());
    assert!(!(0 as u32).as_bool());
    assert!((1 as u64).as_bool());
    assert!(!(0 as u64).as_bool());
    assert!((1 as u128).as_bool());
    assert!(!(0 as u128).as_bool());
    assert!((1 as isize).as_bool());
    assert!(!(0 as isize).as_bool());
    assert!((1 as i8).as_bool());
    assert!(!(0 as i8).as_bool());
    assert!((1 as i16).as_bool());
    assert!(!(0 as i16).as_bool());
    assert!((1 as i32).as_bool());
    assert!(!(0 as i32).as_bool());
    assert!((1 as i64).as_bool());
    assert!(!(0 as i64).as_bool());
    assert!((1 as i128).as_bool());
    assert!(!(0 as i128).as_bool());
    assert!('a'.as_bool());
    assert!(!'\0'.as_bool());
    assert!("a".as_bool());
    assert!(!"".as_bool());
    assert!("a".to_string().as_bool());
    assert!(!"".to_string().as_bool());

    assert!(!().as_bool());
    assert!(![true; 0].as_bool());
    assert!([true; 1].as_bool());

    let mut hm: HashMap<u8, bool> = HashMap::new();
    assert!(!hm.as_bool());
    hm.insert(1, true);
    assert!(hm.as_bool());

    let mut bm: BTreeMap<u8, bool> = BTreeMap::new();
    assert!(!bm.as_bool());
    bm.insert(1, true);
    assert!(bm.as_bool());

    let mut hs: HashSet<bool> = HashSet::new();
    assert!(!hs.as_bool());
    hs.insert(true);
    assert!(hs.as_bool());

    let mut bs: BTreeSet<bool> = BTreeSet::new();
    assert!(!bs.as_bool());
    bs.insert(true);
    assert!(bs.as_bool());

    let mut vd: VecDeque<bool> = VecDeque::new();
    assert!(!vd.as_bool());
    vd.push_back(true);
    assert!(vd.as_bool());

    let mut v: Vec<bool> = Vec::new();
    assert!(!v.as_bool());
    v.push(true);
    assert!(v.as_bool());

    assert!(Some(true).as_bool());
    assert!(!Some(false).as_bool());
    let n: Option<bool> = None;
    assert!(!n.as_bool());
    let mut o: Result<bool, bool> = Ok(true);
    let mut e: Result<bool, bool> = Err(true);
    assert!(o.as_bool());
    assert!(!e.as_bool());
    o = Ok(false);
    e = Err(false);
    assert!(!o.as_bool());
    assert!(!e.as_bool());
}
