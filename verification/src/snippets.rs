//! The snippet table: the literal templates that the composition engine
//! splices together.
//!
//! The table is constructed once and never changed; it is the only part of
//! the system that differs between generator variants. Each template may
//! carry `%placeholder%` slots (where a later snippet is spliced in) and
//! data tokens (`%file_name%`, `%output_file_name%`) that are replaced with
//! literal caller-supplied text.

use vstd::prelude::*;

verus! {

/// The base skeleton installed by the initializing transition. Its one
/// `%placeholder%` is where everything else is spliced in.
pub const INITIAL_TEMPLATE: &'static str = r#"#include "base/base.h"
#include "vdm/vdm.h"
#include "vdm/exam/datafile.h"

int main()
{
    %placeholder%return 0;
}
"#;

/// Spliced in when a data file name has been obtained: opens the data file
/// and sets up a library manager. Re-seeds one `%placeholder%` so that later
/// snippets can splice into the managed region, and carries the
/// `%file_name%` data token.
pub const OPEN_FILE_TEMPLATE: &'static str = r#"
    char* filename = R"(%file_name%)";
    Vint libType = -1;
    datafiletype(const_cast<char*>(filename), &libType);

    vdm_DataFun* libraryFunctions = vdm_DataFunBegin();

    datafileinit(libType, libraryFunctions);

    vdm_DataFunOpen(libraryFunctions, 0, filename, libType);

    Vint ierr = vdm_DataFunError(libraryFunctions);
    if (ierr) {
        vdm_DataFunClose(libraryFunctions);
        datafileterm(libType, libraryFunctions);
        vdm_DataFunEnd(libraryFunctions);
        return 1;
    }

    vdm_LMan* libraryManager = vdm_LManBegin();
    vdm_LManSetObject(libraryManager, VDM_DATAFUN, libraryFunctions);
    %placeholder%
    vdm_DataFunClose(libraryFunctions);
    datafileterm(libType, libraryFunctions);
    vdm_DataFunEnd(libraryFunctions);
    vdm_LManEnd(libraryManager);
    "#;

/// Spliced in to print the opened file's table of contents. Re-seeds one
/// `%placeholder%` after itself so that the next snippet lands below it.
pub const PRINT_TABLE_OF_CONTENTS_TEMPLATE: &'static str = r#"vdm_LManTOC(libraryManager, (Vchar*)"*.*");
    %placeholder%"#;

/// Spliced in to export the opened model in another format. Carries the
/// `%output_file_name%` data token and re-seeds one `%placeholder%`.
pub const EXPORT_IN_ANOTHER_FORMAT_TEMPLATE: &'static str = r#"vdm_DataFun* exportFunctions = vdm_DataFunBegin();
    datafileinit(VDM_NATIVE, exportFunctions);
    vdm_DataFunOpen(exportFunctions, 1, R"(%output_file_name%)", VDM_NATIVE);
    vdm_LManSaveModel(libraryManager, exportFunctions);
    vdm_DataFunClose(exportFunctions);
    vdm_DataFunEnd(exportFunctions);
    %placeholder%"#;

/// The templates of one generator variant, by slot.
pub struct Snippets {
    pub initial: String,
    pub open_file: String,
    pub print_table_of_contents: String,
    pub export_in_another_format: String,
}

/// The mathematical content of a snippet table: each slot's template text.
pub struct SnippetsView {
    pub initial: Seq<char>,
    pub open_file: Seq<char>,
    pub print_table_of_contents: Seq<char>,
    pub export_in_another_format: Seq<char>,
}

impl View for Snippets {
    type V = SnippetsView;

    open spec fn view(&self) -> SnippetsView {
        SnippetsView {
            initial: self.initial@,
            open_file: self.open_file@,
            print_table_of_contents: self.print_table_of_contents@,
            export_in_another_format: self.export_in_another_format@,
        }
    }
}

/// The table of the data-file generator variant: exactly the four template
/// constants above.
pub open spec fn devtools_snippets() -> SnippetsView {
    SnippetsView {
        initial: INITIAL_TEMPLATE@,
        open_file: OPEN_FILE_TEMPLATE@,
        print_table_of_contents: PRINT_TABLE_OF_CONTENTS_TEMPLATE@,
        export_in_another_format: EXPORT_IN_ANOTHER_FORMAT_TEMPLATE@,
    }
}

impl Snippets {
    /// The snippet table of the data-file generator variant.
    pub fn new() -> (snippets: Snippets)
        ensures
            snippets@ == devtools_snippets(),
    {
        Snippets {
            initial: INITIAL_TEMPLATE.to_owned(),
            open_file: OPEN_FILE_TEMPLATE.to_owned(),
            print_table_of_contents: PRINT_TABLE_OF_CONTENTS_TEMPLATE.to_owned(),
            export_in_another_format: EXPORT_IN_ANOTHER_FORMAT_TEMPLATE.to_owned(),
        }
    }
}

} // verus!
