//! The id pool: freed ids are handed out again, and the pointer stops at
//! the last slot even when it is occupied.

use wasabi::pool::Pool;

#[test]
fn test_basic_functionality() {
    let mut p: Pool<i32> = Pool::new();
    assert_eq!(p.is_empty(), true);

    let four = p.add(4); //0
    p.add(34); //1
    let fifty_six = p.add(56); //2
    p.add(56); //3
    assert_eq!(p.get(four), Some(&4i32));
    assert_eq!(p.next_id(), 4);
    p.remove(four);
    assert_eq!(p.next_id(), 0);
    let four = p.add(4);
    assert_eq!(four, 0);
    assert_eq!(p.next_id(), 3);
    p.remove(fifty_six);
    assert_eq!(p.next_id(), 2);
    p.add(2435);
    p.add(3123);
}

#[test]
fn test_mut() {
    let mut p: Pool<Vec<u8>> = Pool::new();
    let index = p.add(vec![0, 1]);
    {
        let thing = p.get_mut(index).unwrap();
        thing.push(2);
    }
    assert_eq!(p.get(index).unwrap(), &vec![0, 1, 2]);
}
