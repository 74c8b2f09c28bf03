use callchain::protocol::compliance::{ComplianceEngine, CompliancePolicy, ComplianceStatus};
use callchain::protocol::errors::ProtocolError;
use callchain::words::Address;

#[test]
fn policies_are_numbered() {
    assert_eq!(CompliancePolicy::Unrestricted.policy_id(), 0);
    assert_eq!(CompliancePolicy::OfacBlacklist.policy_id(), 1);
    assert_eq!(CompliancePolicy::KycRequired.policy_id(), 2);
    assert_eq!(CompliancePolicy::Whitelist.policy_id(), 3);
    assert_eq!(CompliancePolicy::Custom.policy_id(), 4);
    assert!(matches!(ComplianceStatus::default(), ComplianceStatus::Clear));
}

#[test]
fn only_clear_accounts_pass_a_policy() {
    let mut engine = ComplianceEngine::new();
    let (a, b) = (Address::repeat_byte(1), Address::repeat_byte(2));
    engine.check_compliance_by_policy_id(&a, 1).unwrap();
    engine.set_address_compliance(a, 1, ComplianceStatus::Flagged);
    let refused = engine.check_compliance_by_policy_id(&a, 1);
    assert!(matches!(refused, Err(ProtocolError::Compliance("compliance check failed"))));
    engine.check_compliance_by_policy_id(&a, 2).unwrap();
    engine.check_compliance_by_policy_id(&b, 1).unwrap();
    let copy = engine.duplicate();
    engine.set_address_compliance(a, 1, ComplianceStatus::Clear);
    engine.check_compliance(&a, CompliancePolicy::OfacBlacklist).unwrap();
    assert!(copy.check_compliance(&a, CompliancePolicy::OfacBlacklist).is_err());
}

#[test]
fn nobody_is_kept_out_without_a_policy() {
    let mut engine = ComplianceEngine::new();
    let a = Address::repeat_byte(1);
    engine.set_address_compliance(a, 0, ComplianceStatus::Restricted);
    engine.check_compliance(&a, CompliancePolicy::Unrestricted).unwrap();
}
