//! The health report: store and index counts, their consistency, and the embedding model.

use vstd::prelude::*;

use crate::engine::Uteke;
use crate::reports::{DoctorCheck, DoctorReport, DoctorStatus};
use crate::store::Scope;
use crate::text::{append_str, decimal, push_decimal};
use crate::types::Error;

verus! {

/// What the health report needs from the host: the size of the database file as text,
/// whether the home directory is known, and whether the model files are there.
#[derive(Debug)]
pub struct HostFacts {
    pub db_size_text: String,
    pub home_found: bool,
    pub model_files_present: bool,
}

/// The view of one check: name, outcome, detail.
pub type CheckView = (Seq<char>, DoctorStatus, Seq<char>);

pub open spec fn check_view(c: DoctorCheck) -> CheckView {
    (c.name@, c.status, c.detail@)
}

/// The checks of a health report.
pub open spec fn doctor_checks(db: nat, idx: nat, size_text: Seq<char>, home_found: bool, model_present: bool) -> Seq<CheckView> {
    let first = seq![
        ("SQLite DB"@, DoctorStatus::Pass, decimal(db) + " memories, "@ + size_text),
        ("usearch index"@, DoctorStatus::Pass, decimal(idx) + " vectors"@),
        if db == idx {
            ("Index consistency"@, DoctorStatus::Pass, "DB="@ + decimal(db) + " Index="@ + decimal(idx))
        } else {
            (
                "Index consistency"@,
                DoctorStatus::Fail,
                "MISMATCH: DB="@ + decimal(db) + " Index="@ + decimal(idx) + " — run `uteke repair`"@,
            )
        },
    ];
    first.push(
        if !home_found {
            ("Home directory"@, DoctorStatus::Fail, "Cannot determine home directory. Set UTEKE_HOME."@)
        } else if model_present {
            ("Embedding model"@, DoctorStatus::Pass, "embeddinggemma-q4"@)
        } else {
            ("Embedding model"@, DoctorStatus::Fail, "Model files not found — will download on first use"@)
        },
    )
}

fn check(name: &str, status: DoctorStatus, detail: String) -> (c: DoctorCheck)
    ensures
        check_view(c) == (name@, status, detail@),
{
    DoctorCheck { name: String::from_str(name), status, detail }
}

impl Uteke {
    /// The health report: the number of memories and the database size, the number of
    /// index vectors, whether the two counts agree, and whether the embedding model is
    /// there (or that the home directory is unknown).
    pub fn doctor(&self, host: &HostFacts) -> (r: Result<DoctorReport, Error>)
        ensures
            r matches Ok(rep) && rep.checks@.map_values(|c: DoctorCheck| check_view(c)) == doctor_checks(
                self.store@.scoped(None, Scope::Live).len(),
                self.index@.entries.len(),
                host.db_size_text@,
                host.home_found,
                host.model_files_present,
            ),
    {
        let db_count = self.store.count(None);
        let index_count = self.index.len();
        let mut checks: Vec<DoctorCheck> = Vec::new();

        let mut d1 = String::new();
        push_decimal(&mut d1, db_count as u64);
        append_str(&mut d1, " memories, ");
        append_str(&mut d1, host.db_size_text.as_str());
        checks.push(check("SQLite DB", DoctorStatus::Pass, d1));

        let mut d2 = String::new();
        push_decimal(&mut d2, index_count as u64);
        append_str(&mut d2, " vectors");
        checks.push(check("usearch index", DoctorStatus::Pass, d2));

        if db_count == index_count {
            let mut d3 = String::from_str("DB=");
            push_decimal(&mut d3, db_count as u64);
            append_str(&mut d3, " Index=");
            push_decimal(&mut d3, index_count as u64);
            checks.push(check("Index consistency", DoctorStatus::Pass, d3));
        } else {
            let mut d3 = String::from_str("MISMATCH: DB=");
            push_decimal(&mut d3, db_count as u64);
            append_str(&mut d3, " Index=");
            push_decimal(&mut d3, index_count as u64);
            append_str(&mut d3, " — run `uteke repair`");
            checks.push(check("Index consistency", DoctorStatus::Fail, d3));
        }

        if !host.home_found {
            checks.push(
                check(
                    "Home directory",
                    DoctorStatus::Fail,
                    String::from_str("Cannot determine home directory. Set UTEKE_HOME."),
                ),
            );
        } else if host.model_files_present {
            checks.push(check("Embedding model", DoctorStatus::Pass, String::from_str("embeddinggemma-q4")));
        } else {
            checks.push(
                check(
                    "Embedding model",
                    DoctorStatus::Fail,
                    String::from_str("Model files not found — will download on first use"),
                ),
            );
        }
        assert(checks@.map_values(|c: DoctorCheck| check_view(c)) =~= doctor_checks(
            self.store@.scoped(None, Scope::Live).len(),
            self.index@.entries.len(),
            host.db_size_text@,
            host.home_found,
            host.model_files_present,
        ));
        Ok(DoctorReport { checks })
    }
}

} // verus!
