//! The JS-value slab: the interned indices the guest assumes, property
//! lookup and update, and the constructible classes.

use wasabi::js::{Js, JsError, Value};
use wasabi::Wasabi;

#[test]
fn slab_get() {
    let j = Js::new().unwrap();
    match j.slab_get(0).unwrap() {
        Value::NaN => {}
        _ => {
            panic!("incorrect return value for slab_get");
        }
    }
}

#[test]
fn test_reflect_get() {
    let j = Js::new().unwrap();
    assert_eq!(9, j.reflect_get(5, "fs").unwrap().0);
}

#[test]
fn test_reflect_set() {
    let mut j = Js::new().unwrap();
    j.reflect_set(7, "_pendingEvent", 2).unwrap();
    assert_eq!(2, j.reflect_get(7, "_pendingEvent").unwrap().0);
}

#[test]
fn use_global() {
    let wasabi = Wasabi::new();

    match wasabi.js.slab_get(0).unwrap() {
        Value::NaN => {}
        _ => {
            panic!("incorrect return value for slab_get");
        }
    }
}

#[test]
fn interned_singletons() {
    let j = Js::new().unwrap();
    assert!(matches!(j.slab_get(0), Some(Value::NaN)));
    assert!(matches!(j.slab_get(1), Some(Value::Int(0))));
    assert!(matches!(j.slab_get(2), Some(Value::Null)));
    assert!(matches!(j.slab_get(3), Some(Value::True)));
    assert!(matches!(j.slab_get(4), Some(Value::False)));
    assert_eq!(j.true_value, 3);
    assert_eq!(j.false_value, 4);
    assert_eq!(j.null, 2);
    assert_eq!(j.global, 5);
}

#[test]
fn open_mode_constants_are_preloaded() {
    let j = Js::new().unwrap();
    let constants = j.reflect_get(9, "constants").unwrap().0;
    assert_eq!(j.reflect_get(constants, "O_WRONLY").unwrap(), (1, false));
    assert_eq!(j.reflect_get(constants, "O_RDWR").unwrap(), (2, false));
    assert_eq!(j.reflect_get(constants, "O_CREAT").unwrap(), (64, false));
    assert_eq!(j.reflect_get(constants, "O_TRUNC").unwrap(), (512, false));
    assert_eq!(j.reflect_get(constants, "O_APPEND").unwrap(), (1024, false));
    assert_eq!(j.reflect_get(constants, "O_EXCL").unwrap(), (128, false));
}

#[test]
fn error_objects_carry_codes() {
    let j = Js::new().unwrap();
    let code = j.reflect_get(j.error_not_found, "code").unwrap();
    assert!(code.1);
    match j.slab_get(code.0).unwrap() {
        Value::String(s) => assert_eq!(s, "ENOENT"),
        _ => panic!("code should be a string"),
    }
    let code = j.reflect_get(j.error_exists, "code").unwrap();
    match j.slab_get(code.0).unwrap() {
        Value::String(s) => assert_eq!(s, "EEXIST"),
        _ => panic!("code should be a string"),
    }
}

#[test]
fn construct_uint8array_builds_memory_view() {
    let mut j = Js::new().unwrap();
    // Uint8Array sits on the global object
    let class = j.reflect_get(5, "Uint8Array").unwrap().0;
    let args = vec![(0, true), (4096, false), (16, false)];
    let (handle, is_ref) = j.reflect_construct(class, args).unwrap();
    assert!(is_ref);
    match j.slab_get(handle).unwrap() {
        Value::Memory { address, len } => {
            assert_eq!(*address, 4096);
            assert_eq!(*len, 16);
        }
        _ => panic!("Uint8Array should construct a memory view"),
    }
}

#[test]
fn construct_date_returns_target() {
    let mut j = Js::new().unwrap();
    let date = j.reflect_get(5, "Date").unwrap().0;
    assert_eq!(j.reflect_construct(date, vec![]).unwrap(), (date, true));
}

#[test]
fn construct_unknown_class_fails() {
    let mut j = Js::new().unwrap();
    // the process object is not a constructible class
    let process = j.reflect_get(5, "process").unwrap().0;
    assert_eq!(j.reflect_construct(process, vec![]), None);
}

#[test]
fn array_length_and_index() {
    let mut j = Js::new().unwrap();
    let arr = j
        .add_array(5, "scratch", vec![(2, true), (17, false)])
        .unwrap();
    assert_eq!(j.value_length(arr), Some(2));
    assert_eq!(j.reflect_get_index(arr, 0), Some((2, true)));
    assert_eq!(j.reflect_get_index(arr, 1), Some((17, false)));
    assert_eq!(j.reflect_get_index(arr, 2), None);
    assert_eq!(j.value_length(5), None);
}

#[test]
fn add_errors_name_the_failure() {
    let mut j = Js::new().unwrap();
    // handle 0 is NaN, a live handle that is not an object
    assert_eq!(j.add_object(0, "x"), Err(JsError::NotAnObject));
    // far beyond the slab: no such handle
    assert_eq!(j.add_object(10_000, "x"), Err(JsError::NoSuchRef));
    assert_eq!(j.add_array(0, "x", vec![]), Err(JsError::NotAnObject));
    assert_eq!(j.add_object_value(-1, "x", (0, false)), Err(JsError::NoSuchRef));
    // a failed add changes nothing
    assert_eq!(j.slab.len(), 41);
}

#[test]
fn add_metadata_builds_fstat() {
    let mut j = Js::new().unwrap();
    let fstat = j.add_metadata(true);
    assert_eq!(j.reflect_get(fstat, "is_dir").unwrap(), (3, true));
    let fstat = j.add_metadata(false);
    assert_eq!(j.reflect_get(fstat, "is_dir").unwrap(), (4, true));
}
