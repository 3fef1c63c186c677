use delay_timer::convenience::{
    create_default_delay_task_handler, create_delay_task_handler, create_process_task, CandyCron,
    CandyCronStr, DelayTaskHandler, MyUnit,
};
use std::ops::Deref;

struct CustomizationCandyCron(i32);

impl Into<CandyCronStr> for CustomizationCandyCron {
    fn into(self) -> CandyCronStr {
        let s = match self.0 {
            0 => "1 1 1 1 1 1 1",
            1 => "0 59 23 18 11 3 2100",
            _ => "* * * * * * *",
        };
        CandyCronStr(s.to_owned())
    }
}

#[test]
fn test_cron_candy() {
    let mut s: String;

    s = <CandyCron as Into<CandyCronStr>>::into(CandyCron::Daily).0;
    assert_eq!(s, "@daily");

    s = <CandyCron as Into<CandyCronStr>>::into(CandyCron::Yearly).0;
    assert_eq!(s, "@yearly");

    s = <CandyCron as Into<CandyCronStr>>::into(CandyCron::Secondly).0;

    assert_eq!(s, "@secondly");
}

#[test]
fn test_customization_cron_candy() {
    let mut candy_cron_str: CandyCronStr;

    candy_cron_str = CustomizationCandyCron(0).into();
    assert_eq!(
        <CandyCronStr as Deref>::deref(&candy_cron_str),
        "1 1 1 1 1 1 1"
    );

    candy_cron_str = CustomizationCandyCron(1).into();
    assert_eq!(candy_cron_str.deref(), "0 59 23 18 11 3 2100");

    candy_cron_str = CustomizationCandyCron(999).into();
    assert_eq!(&*candy_cron_str, "* * * * * * *");
}

#[test]
fn every_alias_has_its_expression() {
    assert_eq!(CandyCron::Minutely.expression(), "@minutely");
    assert_eq!(CandyCron::Hourly.expression(), "@hourly");
    assert_eq!(CandyCron::Weekly.expression(), "@weekly");
    assert_eq!(CandyCron::Monthly.to_candy_cron_str().0, "@monthly");
}

#[test]
fn unit_handle_quits() {
    assert_eq!(MyUnit.quit(), Ok(()));
}

#[test]
fn handle_constructors_pick_their_variant() {
    let unit: DelayTaskHandler<Vec<u32>, u64> = create_default_delay_task_handler();
    assert!(matches!(unit, DelayTaskHandler::Unit(MyUnit)));
    let activity: DelayTaskHandler<Vec<u32>, u64> = create_delay_task_handler(17);
    assert!(matches!(activity, DelayTaskHandler::Activity(17)));
    let processes: DelayTaskHandler<Vec<u32>, u64> = create_process_task(vec![4, 5]);
    match processes {
        DelayTaskHandler::ProcessList(ids) => assert_eq!(ids, vec![4, 5]),
        _ => panic!("expected a process list"),
    }
}
