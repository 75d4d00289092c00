//! The exporter's command line options and the rules on which of them go together.

use vstd::prelude::*;

verus! {

/// The name of the option that gives the path to the database file
pub const OPTION_PATH: &'static str = "db-path";

/// The name of the option that keeps attachments in place
pub const OPTION_COPY: &'static str = "no-copy";

/// The name of the option that prints diagnostic information
pub const OPTION_DIAGNOSTIC: &'static str = "diagnostics";

/// The name of the option that selects the export format
pub const OPTION_EXPORT_TYPE: &'static str = "export";

/// The name of the option that selects where exported data goes
pub const OPTION_EXPORT_PATH: &'static str = "export-path";

/// The description of the program
pub const ABOUT: &'static str = "";

/// The options of an export
pub struct Options<'a> {
    /// Path to database file
    pub db_path: String,
    /// If true, do not copy files from the Libary to the Archive
    pub no_copy: bool,
    /// If true, emit diagnostic information to stdout
    pub diagnostic: bool,
    /// The type of file we are exporting data to
    pub export_type: Option<&'a str>,
    /// Where the app will save exported data
    pub export_path: Option<&'a str>,
    /// Whether the options created are valid or not
    pub valid: bool,
}

/// A combination of options that is not allowed
#[derive(Debug, PartialEq, Eq, Clone, Copy)]
pub enum OptionsProblem {
    /// Attachments are kept in place, but no export type is selected
    CopyWithoutExportType,
    /// An export path is given, but no export type is selected
    PathWithoutExportType,
    /// Diagnostics are asked for together with keeping attachments in place
    DiagnosticWithCopy,
    /// Diagnostics are asked for together with an export path
    DiagnosticWithPath,
    /// Diagnostics are asked for together with an export type
    DiagnosticWithExportType,
}

/// The problems of a combination of options, in the order they are checked: an export type
/// is needed by `no-copy` and by an export path, and diagnostics go with none of the others.
pub open spec fn spec_problems(
    no_copy: bool,
    diagnostic: bool,
    has_export_type: bool,
    has_export_path: bool,
) -> Seq<OptionsProblem> {
    let p1 = if no_copy && !has_export_type {
        seq![OptionsProblem::CopyWithoutExportType]
    } else {
        seq![]
    };
    let p2 = if has_export_path && !has_export_type {
        seq![OptionsProblem::PathWithoutExportType]
    } else {
        seq![]
    };
    let p3 = if diagnostic && no_copy {
        seq![OptionsProblem::DiagnosticWithCopy]
    } else {
        seq![]
    };
    let p4 = if diagnostic && has_export_path {
        seq![OptionsProblem::DiagnosticWithPath]
    } else {
        seq![]
    };
    let p5 = if diagnostic && has_export_type {
        seq![OptionsProblem::DiagnosticWithExportType]
    } else {
        seq![]
    };
    p1 + p2 + p3 + p4 + p5
}

/// The problems of a combination of options, in the order they are checked
pub fn option_problems(
    no_copy: bool,
    diagnostic: bool,
    has_export_type: bool,
    has_export_path: bool,
) -> (problems: Vec<OptionsProblem>)
    ensures
        problems@ == spec_problems(no_copy, diagnostic, has_export_type, has_export_path),
{
    let mut problems: Vec<OptionsProblem> = Vec::new();
    // Ensure an export type is specified if other export options are selected
    if no_copy && !has_export_type {
        problems.push(OptionsProblem::CopyWithoutExportType);
    }
    if has_export_path && !has_export_type {
        problems.push(OptionsProblem::PathWithoutExportType);
    }
    // Ensure that if diagnostics are enabled, no other options are
    if diagnostic && no_copy {
        problems.push(OptionsProblem::DiagnosticWithCopy);
    }
    if diagnostic && has_export_path {
        problems.push(OptionsProblem::DiagnosticWithPath);
    }
    if diagnostic && has_export_type {
        problems.push(OptionsProblem::DiagnosticWithExportType);
    }
    assert(problems@ =~= spec_problems(no_copy, diagnostic, has_export_type, has_export_path));
    problems
}

impl OptionsProblem {
    /// The message that explains the problem
    pub fn message(&self) -> (text: String)
        ensures
            text@ == match self {
                OptionsProblem::CopyWithoutExportType => "No export type selected, required by no-copy"@,
                OptionsProblem::PathWithoutExportType => "No export type selected, required by export-path"@,
                OptionsProblem::DiagnosticWithCopy => "Diagnostics are enabled; no-copy is disallowed"@,
                OptionsProblem::DiagnosticWithPath => "Diagnostics are enabled; export-path is disallowed"@,
                OptionsProblem::DiagnosticWithExportType => "Diagnostics are enabled; export is disallowed"@,
            },
    {
        match self {
            OptionsProblem::CopyWithoutExportType => "No export type selected, required by no-copy".to_owned(),
            OptionsProblem::PathWithoutExportType => "No export type selected, required by export-path".to_owned(),
            OptionsProblem::DiagnosticWithCopy => "Diagnostics are enabled; no-copy is disallowed".to_owned(),
            OptionsProblem::DiagnosticWithPath => "Diagnostics are enabled; export-path is disallowed".to_owned(),
            OptionsProblem::DiagnosticWithExportType => "Diagnostics are enabled; export is disallowed".to_owned(),
        }
    }
}

impl<'a> Options<'a> {
    /// The options given by their values, valid when no rule is broken
    pub fn from_values(
        db_path: String,
        no_copy: bool,
        diagnostic: bool,
        export_type: Option<&'a str>,
        export_path: Option<&'a str>,
    ) -> (options: Self)
        ensures
            options.db_path@ == db_path@,
            options.no_copy == no_copy,
            options.diagnostic == diagnostic,
            options.export_type == export_type,
            options.export_path == export_path,
            options.valid == (spec_problems(
                no_copy,
                diagnostic,
                export_type is Some,
                export_path is Some,
            ).len() == 0),
    {
        let problems = option_problems(
            no_copy,
            diagnostic,
            export_type.is_some(),
            export_path.is_some(),
        );
        Options {
            db_path,
            no_copy,
            diagnostic,
            export_type,
            export_path,
            valid: problems.len() == 0,
        }
    }
}

/// Options are valid exactly when diagnostics stand alone, and an export type is selected
/// whenever attachments are kept in place or an export path is given.
pub proof fn lemma_options_valid(
    no_copy: bool,
    diagnostic: bool,
    has_export_type: bool,
    has_export_path: bool,
)
    ensures
        (spec_problems(no_copy, diagnostic, has_export_type, has_export_path).len() == 0) <==> (
        (diagnostic ==> !no_copy && !has_export_type && !has_export_path) && ((no_copy
            || has_export_path) ==> has_export_type)),
{
}

} // verus!
