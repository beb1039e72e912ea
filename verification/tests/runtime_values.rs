use kiro_lang::runtime::{AsKiroLoopVar, KiroAdd, KiroAssign, KiroEq, KiroError, KiroIter, KiroTruthy};

#[test]
fn host_errors_render_name_and_message() {
    let plain = KiroError::new("NotFound");
    assert_eq!(plain.name, "NotFound");
    assert!(plain.message.is_none());
    assert_eq!(plain.to_text(), "NotFound");
    let detailed = KiroError::message("NotFound", "no such file");
    assert_eq!(detailed.to_text(), "NotFound: no such file");
}

#[test]
fn truth_of_values() {
    assert!(true.kiro_truthy());
    assert!(!false.kiro_truthy());
    let ok: Result<u8, String> = Ok(1);
    let err: Result<u8, String> = Err("e".to_string());
    assert!(ok.kiro_truthy());
    assert!(!err.kiro_truthy());
}

#[test]
fn equality_of_values() {
    assert!("a".to_string().kiro_eq(&"a".to_string()));
    assert!(!"a".to_string().kiro_eq(&"b".to_string()));
    assert!(vec![true, false].kiro_eq(&vec![true, false]));
    assert!(!vec![true].kiro_eq(&vec![true, true]));
    assert!(!vec![true, false].kiro_eq(&vec![true, true]));
}

#[test]
fn string_concatenation() {
    assert_eq!("ab".to_string().kiro_add("cd".to_string()), "abcd");
    assert_eq!("x=".to_string().kiro_add(true), "x=true");
    assert_eq!(false.kiro_add("!".to_string()), "false!");
}

#[test]
fn assignment_and_loop_variables() {
    let mut x = 1u8;
    x.kiro_assign(7u8);
    assert_eq!(x, 7);
    assert_eq!('k'.as_kiro(), "k");
    assert_eq!("s".to_string().as_kiro(), "s");
    assert!(true.as_kiro());
}

#[test]
fn loops_walk_ranges_lists_and_strings_in_order() {
    assert_eq!((2i64..5).kiro_iter(), vec![2, 3, 4]);
    assert_eq!((5i64..2).kiro_iter(), Vec::<i64>::new());
    assert_eq!(vec![true, false].kiro_iter(), vec![true, false]);
    assert_eq!("héllo".to_string().kiro_iter(), vec!['h', 'é', 'l', 'l', 'o']);
}
