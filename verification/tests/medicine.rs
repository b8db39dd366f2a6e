use rat_sim::medicine::Medicine;
use rat_sim::medicine::MedicineEffect;
use rat_sim::medicine::Medicines;
use rat_sim::medicine::Report;

#[test]
fn test_report_missed_side_effects() {
    let mut medicine = Medicine::default();
    assert!(!medicine.report_missed_side_effects());

    medicine.appetite = -1;
    assert!(medicine.report_missed_side_effects());
    medicine.report.appetite = -1;
    assert!(!medicine.report_missed_side_effects());

    medicine.fear = 1;
    assert!(medicine.report_missed_side_effects());
    medicine.report.fear = 1;
    assert!(!medicine.report_missed_side_effects());

    medicine.smell = -1;
    assert!(medicine.report_missed_side_effects());
    medicine.report.smell = -1;
    assert!(!medicine.report_missed_side_effects());
}

#[test]
fn test_report_extra_side_effects() {
    let mut medicine = Medicine::default();
    assert!(!medicine.report_extra_side_effects());

    medicine.report.appetite = -1;
    assert!(medicine.report_extra_side_effects());
    medicine.appetite = -1;
    assert!(!medicine.report_extra_side_effects());

    medicine.report.fear = 1;
    assert!(medicine.report_extra_side_effects());
    medicine.fear = 1;
    assert!(!medicine.report_extra_side_effects());

    medicine.report.smell = -1;
    assert!(medicine.report_extra_side_effects());
    medicine.smell = -1;
    assert!(!medicine.report_extra_side_effects());
}

#[test]
fn test_report_missed_desirable_effects() {
    let mut medicine = Medicine::default();
    assert!(!medicine.report_missed_desirable_effects());

    medicine.appetite = 1;
    assert!(medicine.report_missed_desirable_effects());
    medicine.report.appetite = 1;
    assert!(!medicine.report_missed_desirable_effects());

    medicine.fear = -1;
    assert!(medicine.report_missed_desirable_effects());
    medicine.report.fear = -1;
    assert!(!medicine.report_missed_desirable_effects());

    medicine.smell = 1;
    assert!(medicine.report_missed_desirable_effects());
    medicine.report.smell = 1;
    assert!(!medicine.report_missed_desirable_effects());
}

#[test]
fn test_report_extra_desirable_effects() {
    let mut medicine = Medicine::default();
    assert!(!medicine.report_extra_desirable_effects());

    medicine.report.appetite = 1;
    assert!(medicine.report_extra_desirable_effects());
    medicine.appetite = 1;
    assert!(!medicine.report_extra_desirable_effects());

    medicine.report.fear = -1;
    assert!(medicine.report_extra_desirable_effects());
    medicine.fear = -1;
    assert!(!medicine.report_extra_desirable_effects());

    medicine.report.smell = 1;
    assert!(medicine.report_extra_desirable_effects());
    medicine.smell = 1;
    assert!(!medicine.report_extra_desirable_effects());
}

#[test]
fn test_default_medicines_roster() {
    let meds = Medicines::default();
    assert_eq!(meds.0.len(), 3);
    assert_eq!(meds.0[0].name, "A");
    assert_eq!((meds.0[0].appetite, meds.0[0].smell, meds.0[0].fear), (-1, 0, 1));
    assert_eq!(meds.0[1].name, "B");
    assert_eq!((meds.0[1].appetite, meds.0[1].smell, meds.0[1].fear), (1, -1, 0));
    assert_eq!(meds.0[2].name, "C");
    assert_eq!((meds.0[2].appetite, meds.0[2].smell, meds.0[2].fear), (1, 1, -1));
    assert!(meds.0.iter().all(|m| !m.in_experiment));
    // The stock medicines have real effects while every report starts
    // empty: side and desirable effects are missed, nothing extra is
    // claimed.
    assert!(!meds.all_reports_are_correct());
    assert!(meds.some_reports_have_missed_side_effects());
    assert!(meds.some_reports_have_missed_desirable_effects());
    assert!(!meds.some_reports_have_extra_side_effects());
    assert!(!meds.some_reports_have_extra_desirable_effects());
}

#[test]
fn test_aggregate_report_flags() {
    // With every report filled in truthfully, all flags clear.
    let mut meds = Medicines::default();
    for m in meds.0.iter_mut() {
        m.report = Report { appetite: m.appetite, smell: m.smell, fear: m.fear };
    }
    assert!(meds.all_reports_are_correct());
    assert!(!meds.some_reports_have_missed_side_effects());
    assert!(!meds.some_reports_have_extra_side_effects());
    assert!(!meds.some_reports_have_missed_desirable_effects());
    assert!(!meds.some_reports_have_extra_desirable_effects());
    // Leave medicine A's real loss of appetite out of its report.
    meds.0[0].report.appetite = 0;
    assert!(meds.some_reports_have_missed_side_effects());
    assert!(!meds.all_reports_are_correct());
    meds.0[0].report.appetite = -1;
    // Claim a loss of appetite that medicine B does not cause: an extra
    // side effect, and its real healthy appetite goes missing with it.
    meds.0[1].report.appetite = -1;
    assert!(meds.some_reports_have_extra_side_effects());
    assert!(meds.some_reports_have_missed_desirable_effects());
    meds.0[1].report.appetite = 1;
    // Claim lowered anxiety of a medicine whose true fear effect is gone.
    meds.0[1].fear = 0;
    meds.0[1].report.fear = -1;
    assert!(meds.some_reports_have_extra_desirable_effects());
}

#[test]
fn test_mark_and_set_effect_touch_one_channel() {
    let mut m = Medicine::default().with_name("D");
    assert_eq!(m.name, "D");
    m.set_effect(&MedicineEffect::Fear, -1);
    assert_eq!((m.appetite, m.smell, m.fear), (0, 0, -1));
    let mut r = Report::default();
    r.mark_effect(&MedicineEffect::Smell, 1);
    assert_eq!((r.appetite, r.smell, r.fear), (0, 1, 0));
    assert_eq!(MedicineEffect::Appetite.positive_value(), 1);
    assert_eq!(MedicineEffect::Appetite.negative_value(), -1);
    assert_eq!(MedicineEffect::Fear.positive_value(), -1);
    assert_eq!(MedicineEffect::Fear.negative_value(), 1);
    assert_eq!(MedicineEffect::Smell.positive_value(), 1);
    assert_eq!(MedicineEffect::Smell.negative_value(), -1);
}
