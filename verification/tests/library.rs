use gestor_container::consumers::{identify_consumers, ContainerUsage};
use gestor_container::cpu_classes;
use gestor_container::docker::{
    lookup_advance, lookup_start, stop_report, CommandOutput, ContainerError, FoundContainer,
    LookupGoal, LookupState,
};
use gestor_container::ranking::{consumption_order, uses_more_exec, UsageKey};
use gestor_container::report::{
    ram_log_entry, ram_log_message, ram_summary_line, status_is_success, RamInfo,
};
use gestor_container::submission::Submission;
use gestor_container::sysinfo::strip_trailing_commas;
use gestor_container::text::{i32_to_decimal, u64_to_decimal};

fn key(cpu: u64, memory: u64, vsz: u64, rss: u64) -> UsageKey {
    UsageKey { cpu, memory, vsz, rss }
}

fn output(success: bool, text: &str) -> CommandOutput {
    CommandOutput { success, stdout: text.as_bytes().to_vec() }
}

fn run_lookup(goal: LookupGoal, outputs: Vec<CommandOutput>) -> LookupState {
    let mut state = lookup_start();
    for out in outputs {
        state = lookup_advance(state, goal, out);
    }
    state
}

#[test]
fn decimal_text_of_unsigned() {
    assert_eq!(u64_to_decimal(0), "0");
    assert_eq!(u64_to_decimal(7), "7");
    assert_eq!(u64_to_decimal(105), "105");
    assert_eq!(u64_to_decimal(u64::MAX), u64::MAX.to_string());
}

#[test]
fn decimal_text_of_signed() {
    assert_eq!(i32_to_decimal(0), "0");
    assert_eq!(i32_to_decimal(-42), "-42");
    assert_eq!(i32_to_decimal(2024), "2024");
    assert_eq!(i32_to_decimal(i32::MIN), "-2147483648");
    assert_eq!(i32_to_decimal(i32::MAX), "2147483647");
}

#[test]
fn uses_more_compares_measures_in_turn() {
    assert!(uses_more_exec(&key(2, 0, 0, 0), &key(1, 9, 9, 9)));
    assert!(uses_more_exec(&key(1, 2, 0, 0), &key(1, 1, 9, 9)));
    assert!(uses_more_exec(&key(1, 1, 2, 0), &key(1, 1, 1, 9)));
    assert!(uses_more_exec(&key(1, 1, 1, 2), &key(1, 1, 1, 1)));
    assert!(!uses_more_exec(&key(1, 1, 1, 1), &key(1, 1, 1, 1)));
    assert!(!uses_more_exec(&key(0, 9, 9, 9), &key(1, 0, 0, 0)));
}

#[test]
fn consumption_order_is_descending_and_stable() {
    let keys = vec![
        key(1, 5, 0, 0),
        key(3, 0, 0, 0),
        key(1, 5, 0, 0),
        key(1, 7, 0, 0),
        key(3, 0, 0, 0),
        key(0, 0, 0, 9),
    ];
    assert_eq!(consumption_order(&keys), vec![1, 4, 3, 0, 2, 5]);
}

#[test]
fn consumption_order_of_nothing_and_one() {
    assert_eq!(consumption_order(&vec![]), Vec::<usize>::new());
    assert_eq!(consumption_order(&vec![key(4, 4, 4, 4)]), vec![0]);
}

fn usage(pid: &str, cpu: u64) -> ContainerUsage {
    ContainerUsage { pid: pid.to_string(), usage: key(cpu, 0, 0, 0) }
}

#[test]
fn plan_keeps_two_highest_three_lowest_and_stops_the_rest() {
    let containers = vec![
        usage("10", 5),
        usage("11", 9),
        usage("12", 1),
        usage("13", 7),
        usage("14", 3),
        usage("15", 8),
        usage("16", 2),
    ];
    let log = "13".to_string();
    let plan = identify_consumers(&containers, &log);
    assert_eq!(plan.order, vec![1, 5, 3, 0, 4, 6, 2]);
    assert_eq!(plan.high, vec![1, 5]);
    assert_eq!(plan.low, vec![4, 6, 2]);
    assert_eq!(plan.to_remove, vec!["10".to_string()]);
}

#[test]
fn plan_stops_the_middle_consumer_of_six() {
    let containers = vec![
        usage("1", 50),
        usage("2", 10),
        usage("3", 40),
        usage("4", 5),
        usage("5", 30),
        usage("6", 20),
    ];
    let plan = identify_consumers(&containers, &"999".to_string());
    assert_eq!(plan.order, vec![0, 2, 4, 5, 1, 3]);
    let pids = |idx: &Vec<usize>| -> Vec<String> {
        idx.iter().map(|&i| containers[i].pid.clone()).collect()
    };
    assert_eq!(pids(&plan.high), vec!["1", "3"]);
    assert_eq!(pids(&plan.low), vec!["6", "2", "4"]);
    assert_eq!(plan.to_remove, vec!["5".to_string()]);
}

#[test]
fn plan_never_stops_the_log_container() {
    let containers: Vec<ContainerUsage> =
        (0..9).map(|i| usage(&format!("p{}", i), 100 - i)).collect();
    let plan = identify_consumers(&containers, &"p4".to_string());
    assert_eq!(plan.to_remove, vec!["p2".to_string(), "p3".to_string(), "p5".to_string()]);
}

#[test]
fn plan_ignores_listing_order() {
    let a = vec![usage("a", 4), usage("b", 9), usage("c", 1), usage("d", 6), usage("e", 3), usage("f", 7), usage("g", 2)];
    let b = vec![usage("e", 3), usage("g", 2), usage("a", 4), usage("f", 7), usage("c", 1), usage("b", 9), usage("d", 6)];
    let log = "a".to_string();
    let pa = identify_consumers(&a, &log);
    let pb = identify_consumers(&b, &log);
    let ranked = |cs: &Vec<ContainerUsage>, idx: &Vec<usize>| -> Vec<String> {
        idx.iter().map(|&i| cs[i].pid.clone()).collect()
    };
    assert_eq!(ranked(&a, &pa.order), ranked(&b, &pb.order));
    assert_eq!(ranked(&a, &pa.high), ranked(&b, &pb.high));
    assert_eq!(ranked(&a, &pa.low), ranked(&b, &pb.low));
    assert_eq!(pa.to_remove, pb.to_remove);
    assert_eq!(pa.to_remove, vec!["d".to_string()]);
}

#[test]
fn plan_with_few_containers_stops_nothing() {
    let containers = vec![usage("1", 1), usage("2", 2), usage("3", 3), usage("4", 4), usage("5", 5)];
    let plan = identify_consumers(&containers, &"9".to_string());
    assert_eq!(plan.high, vec![4, 3]);
    assert_eq!(plan.low, vec![2, 1, 0]);
    assert!(plan.to_remove.is_empty());

    let four = vec![usage("1", 1), usage("2", 2), usage("3", 3), usage("4", 4)];
    let plan = identify_consumers(&four, &"9".to_string());
    assert_eq!(plan.high, vec![3, 2]);
    assert!(plan.low.is_empty());
    assert!(plan.to_remove.is_empty());

    let two = vec![usage("1", 1), usage("2", 2)];
    let plan = identify_consumers(&two, &"1".to_string());
    assert_eq!(plan.order, vec![1, 0]);
    assert!(plan.high.is_empty());
    assert!(plan.low.is_empty());
}

#[test]
fn cpu_split_of_joined_lists_joins_the_splits() {
    let xs = vec![12, 4, 10];
    let ys = vec![5, 0, 30];
    let joined: Vec<u64> = xs.iter().chain(ys.iter()).copied().collect();
    let whole = cpu_classes::identify_consumers(&joined, 10, 5);
    let first = cpu_classes::identify_consumers(&xs, 10, 5);
    let second = cpu_classes::identify_consumers(&ys, 10, 5);
    let shift = |v: &Vec<usize>| -> Vec<usize> { v.iter().map(|i| i + xs.len()).collect() };
    assert_eq!(whole.high, [first.high.clone(), shift(&second.high)].concat());
    assert_eq!(whole.low, [first.low.clone(), shift(&second.low)].concat());
}

#[test]
fn cpu_split_lists_above_and_below() {
    let cpu = vec![12, 4, 10, 5, 0, 30];
    let classes = cpu_classes::identify_consumers(&cpu, 10, 5);
    assert_eq!(classes.high, vec![0, 5]);
    assert_eq!(classes.low, vec![1, 4]);
}

#[test]
fn lookup_of_id_trims_the_output() {
    let state = run_lookup(LookupGoal::Id, vec![output(true, ""), output(true, "  3f2a9c\n")]);
    assert_eq!(
        state,
        LookupState::Found(FoundContainer { id: "3f2a9c".to_string(), pid: None })
    );
}

#[test]
fn lookup_of_pid_trims_and_unquotes() {
    let state = run_lookup(
        LookupGoal::IdAndPid,
        vec![output(true, ""), output(true, "3f2a9c\n"), output(true, "'4711'\n")],
    );
    assert_eq!(
        state,
        LookupState::Found(FoundContainer {
            id: "3f2a9c".to_string(),
            pid: Some("4711".to_string())
        })
    );
}

#[test]
fn lookup_keeps_unicode_whitespace_inside() {
    let state = run_lookup(LookupGoal::Id, vec![output(true, ""), output(true, "\u{3000}a b\u{a0}\n")]);
    assert_eq!(state, LookupState::Found(FoundContainer { id: "a b".to_string(), pid: None }));
}

#[test]
fn lookup_waits_for_each_command() {
    let state = lookup_advance(lookup_start(), LookupGoal::IdAndPid, output(true, "ignored"));
    assert_eq!(state, LookupState::AwaitIds);
    let state = lookup_advance(state, LookupGoal::IdAndPid, output(true, "abc\n"));
    assert_eq!(state, LookupState::AwaitPid { id: "abc".to_string() });
}

#[test]
fn lookup_failures() {
    assert_eq!(
        run_lookup(LookupGoal::Id, vec![output(false, "")]),
        LookupState::Failed(ContainerError::ComposeFailed)
    );
    assert_eq!(
        run_lookup(LookupGoal::Id, vec![output(true, ""), output(false, "abc")]),
        LookupState::Failed(ContainerError::IdLookupFailed)
    );
    assert_eq!(
        run_lookup(
            LookupGoal::IdAndPid,
            vec![output(true, ""), output(true, "abc"), output(false, "12")]
        ),
        LookupState::Failed(ContainerError::PidLookupFailed)
    );
    let bad = CommandOutput { success: true, stdout: vec![0x61, 0xff, 0x62] };
    assert_eq!(
        run_lookup(LookupGoal::Id, vec![output(true, ""), bad]),
        LookupState::Failed(ContainerError::InvalidUtf8(vec![0x61, 0xff, 0x62]))
    );
}

#[test]
fn finished_lookup_ignores_further_outputs() {
    let state = run_lookup(LookupGoal::Id, vec![output(false, ""), output(true, "abc")]);
    assert_eq!(state, LookupState::Failed(ContainerError::ComposeFailed));
}

#[test]
fn stop_reports() {
    assert_eq!(
        stop_report(true, "3f2a9c"),
        Ok("Contenedor detenido exitosamente: 3f2a9c".to_string())
    );
    assert_eq!(stop_report(false, "3f2a9c"), Err(ContainerError::StopFailed));
}

#[test]
fn ram_lines() {
    let ram = RamInfo { total: 16384, libre: 2048, uso: 14336 };
    assert_eq!(
        ram_summary_line(&ram),
        "RAM Total: 16384 Kb, RAM Libre: 2048 Kb, RAM Uso: 14336 Kb"
    );
    assert_eq!(
        ram_log_message("2024-10-01T10:00:00+00:00", &ram),
        "[2024-10-01T10:00:00+00:00] Información de la RAM: Total: 16384 Kb, Libre: 2048 Kb, Uso: 14336 Kb"
    );
}

#[test]
fn ram_log_entry_is_stamped_in_utc() {
    let ram = RamInfo { total: 1, libre: 0, uso: 1 };
    assert_eq!(
        ram_log_entry(&ram, 0, 0),
        Some("[1970-01-01T00:00:00+00:00] Información de la RAM: Total: 1 Kb, Libre: 0 Kb, Uso: 1 Kb".to_string())
    );
    assert_eq!(
        ram_log_entry(&ram, 1431648000, 250_000_000),
        Some("[2015-05-15T00:00:00.250+00:00] Información de la RAM: Total: 1 Kb, Libre: 0 Kb, Uso: 1 Kb".to_string())
    );
    assert_eq!(
        ram_log_entry(&ram, 253_402_300_799, 999_999_999),
        Some("[9999-12-31T23:59:59.999999999+00:00] Información de la RAM: Total: 1 Kb, Libre: 0 Kb, Uso: 1 Kb".to_string())
    );
}

#[test]
fn ram_log_entry_out_of_range_is_none() {
    let ram = RamInfo { total: 1, libre: 0, uso: 1 };
    assert_eq!(ram_log_entry(&ram, i64::MAX, 0), None);
    assert_eq!(ram_log_entry(&ram, 0, 2_000_000_000), None);
}

#[test]
fn success_statuses() {
    assert!(!status_is_success(199));
    assert!(status_is_success(200));
    assert!(status_is_success(204));
    assert!(status_is_success(299));
    assert!(!status_is_success(300));
    assert!(!status_is_success(404));
}

#[test]
fn submission_texts() {
    let s = Submission {
        student: "Ana".to_string(),
        age: 21,
        faculty: "Ingenieria".to_string(),
        discipline: -3,
    };
    assert_eq!(s.log_line(), "Student: Ana, Age: 21, Faculty: Ingenieria, Discipline: -3");
    assert_eq!(
        s.response_body(),
        "Received student: Ana, age: 21, faculty: Ingenieria, discipline: -3"
    );
}

#[test]
fn trailing_commas_are_stripped() {
    let text = "{\n  \"containers\": [\n    {\"id\": \"a\"},\n  ]\n}";
    assert_eq!(
        strip_trailing_commas(text),
        "{\n  \"containers\": [\n    {\"id\": \"a\"}\n  ]\n}"
    );
    assert_eq!(strip_trailing_commas("[1, 2]"), "[1, 2]");
}

#[test]
fn doubled_trailing_comma_keeps_one() {
    assert_eq!(strip_trailing_commas("[1,,\n  ]"), "[1,\n  ]");
}
