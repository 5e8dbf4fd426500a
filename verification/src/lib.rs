//! Release and review report logic for the ripr tooling: argument parsing,
//! fail-closed evidence evaluation, and report rendering, with contracts
//! checked by Verus.

pub mod text;
pub mod reverse_authorization;
pub mod release;
pub mod sarif;
pub mod release_negative;
pub mod release_server;
pub mod review_comments;
pub mod release_scope;
pub mod release_control;
pub mod recommendation;
pub mod release_denominator;
pub mod adjudication;
pub mod release_checks;
pub mod negative_case;
pub mod review_packet;
pub mod json_record;
pub mod repair_trust;
pub mod repair_scorecard;
pub mod github_capture;
pub mod denominator_report;
