//! The substitution engine: given a configuration and a template catalog, it
//! resolves the full ordered set of output files, rewriting placeholder
//! tokens in each resource's path and content. Resolution is all-or-nothing:
//! a missing resource aborts with `TemplateMissing` before anything is
//! handed to a writer.

use vstd::prelude::*;

use crate::casing::{convert_to_kebab_case, kebab_case_to_pascal_case, kebab_of, pascal_of_kebab};
use crate::catalog::{lookup_entries, TemplateCatalog};
use crate::config::{Formatter, Linter, ProjectConfig, TestTool};
use crate::text::{
    cleanup_of, lemma_replace_prefix, occurs_at, remove_empty_lines_and_quotes, replace_all,
    replace_of,
};

verus! {

/// One resolved output file: a path relative to the target directory and the
/// text to write there.
#[derive(Debug)]
pub struct TemplateFile {
    pub file_path: String,
    pub content: String,
}

/// Resolution failure: a required (or selected optional) template resource
/// is absent from the catalog.
#[derive(Debug, PartialEq, Eq)]
pub enum TemplateError {
    TemplateMissing(String),
}

pub open spec fn pn_token() -> Seq<char> {
    "%project-name%"@
}

pub open spec fn pascal_token() -> Seq<char> {
    "%ProjectName%"@
}

/// The manifest's `test` script entry for a test-tool choice; empty when no
/// tool is chosen, so that the cleanup pass drops the line.
pub open spec fn test_command_frag(t: TestTool) -> Seq<char> {
    match t {
        TestTool::Vitest => "test\": \"vitest --run"@,
        TestTool::Jest => "test\": \"jest"@,
        TestTool::NoTestTool => Seq::empty(),
    }
}

/// The manifest's `lint` script entry for a linter choice.
pub open spec fn lint_command_frag(l: Linter) -> Seq<char> {
    match l {
        Linter::EsLint => "lint\": \"eslint --config eslint.config.mjs"@,
        Linter::Biome => "lint\": \"biome lint"@,
        Linter::NoLinter => Seq::empty(),
    }
}

/// The manifest's `format` script entry for a formatter choice.
pub open spec fn format_command_frag(f: Formatter) -> Seq<char> {
    match f {
        Formatter::Prettier => "format\": \"prettier --write '**/*.ts' --ignore-path .prettierignore"@,
        Formatter::Biome => "format\": \"biome format"@,
        Formatter::NoFormatter => Seq::empty(),
    }
}

/// The manifest's dev-dependency entries for a test-tool choice.
pub open spec fn test_module_frag(t: TestTool) -> Seq<char> {
    match t {
        TestTool::Vitest => "vitest\": \"^3.0.4"@,
        TestTool::Jest => "@types/jest\": \"^29.5.14\",\n    \"jest\": \"^29.7.0\",\n    \"ts-jest\": \"^29.2.5"@,
        TestTool::NoTestTool => Seq::empty(),
    }
}

/// The Biome dev-dependency entry, shared between the linter and formatter
/// axes.
pub open spec fn biome_module_entry() -> Seq<char> {
    "biome\": \"^1.6.0"@
}

/// The manifest's dev-dependency entries for a linter choice.
pub open spec fn lint_module_frag(l: Linter) -> Seq<char> {
    match l {
        Linter::EsLint => "@eslint/js\": \"^9.19.0\",\n    \"typescript-eslint\": \"^8.14.0\",\n    \"eslint-cdk-plugin\": \"^1.1.1"@,
        Linter::Biome => biome_module_entry(),
        Linter::NoLinter => Seq::empty(),
    }
}

/// The manifest's dev-dependency entries for a formatter choice. When both
/// the formatter and the linter are Biome, the linter's entry already brings
/// the dependency, so the formatter contributes nothing; a formatter-only
/// Biome still injects it.
pub open spec fn format_module_frag(f: Formatter, l: Linter) -> Seq<char> {
    match f {
        Formatter::Prettier => "prettier\": \"^3.4.2"@,
        Formatter::Biome => if l == Linter::Biome {
            Seq::empty()
        } else {
            biome_module_entry()
        },
        Formatter::NoFormatter => Seq::empty(),
    }
}

/// The config file ignored for a test-tool choice (in `.gitignore`).
pub open spec fn test_file_frag(t: TestTool) -> Seq<char> {
    match t {
        TestTool::Vitest => "vitest.config.mjs"@,
        TestTool::Jest => "jest.config.mjs"@,
        TestTool::NoTestTool => Seq::empty(),
    }
}

/// Law: when both the linter and the formatter are Biome, the formatter's
/// module token resolves to nothing and the linter's token alone carries the
/// Biome dependency entry; when the formatter is Biome and the linter is
/// not, the formatter's token carries that entry itself.
pub proof fn lemma_biome_module_dedup(f: Formatter, l: Linter)
    ensures
        f == Formatter::Biome && l == Linter::Biome ==> format_module_frag(f, l)
            == Seq::<char>::empty() && lint_module_frag(l) == biome_module_entry(),
        f == Formatter::Biome && l != Linter::Biome ==> format_module_frag(f, l)
            == biome_module_entry(),
{
}

/// The manifest's content after token substitution (in the fixed order:
/// project name, test command, lint command, format command, test module,
/// lint module, format module) and the cleanup pass.
pub open spec fn package_json_content(t: Seq<char>, kebab: Seq<char>, c: ProjectConfig) -> Seq<
    char,
> {
    cleanup_of(
        replace_of(
            replace_of(
                replace_of(
                    replace_of(
                        replace_of(
                            replace_of(
                                replace_of(t, pn_token(), kebab),
                                "%test_command%"@,
                                test_command_frag(c.test_tool),
                            ),
                            "%lint_command%"@,
                            lint_command_frag(c.linter),
                        ),
                        "%format_command%"@,
                        format_command_frag(c.formatter),
                    ),
                    "%test_module%"@,
                    test_module_frag(c.test_tool),
                ),
                "%lint_module%"@,
                lint_module_frag(c.linter),
            ),
            "%format_module%"@,
            format_module_frag(c.formatter, c.linter),
        ),
    )
}

/// A named file's content: `%project-name%` and then `%ProjectName%`
/// replaced.
pub open spec fn named_file_content(t: Seq<char>, kebab: Seq<char>, pascal: Seq<char>) -> Seq<
    char,
> {
    replace_of(replace_of(t, pn_token(), kebab), pascal_token(), pascal)
}

pub open spec fn test_template_path() -> Seq<char> {
    "test/%project-name%.test.ts"@
}

pub open spec fn lib_template_path() -> Seq<char> {
    "lib/%project-name%-stack.ts"@
}

pub open spec fn bin_template_path() -> Seq<char> {
    "bin/%project-name%.ts"@
}

/// The lint-config resource for a linter choice; meaningful only when a
/// linter is chosen.
pub open spec fn lint_config_key(l: Linter) -> Seq<char> {
    match l {
        Linter::EsLint => "eslint.config.mjs"@,
        Linter::Biome => "biome.json"@,
        Linter::NoLinter => Seq::empty(),
    }
}

/// The test-config resource for a test-tool choice; meaningful only when a
/// test tool is chosen.
pub open spec fn test_config_key(t: TestTool) -> Seq<char> {
    match t {
        TestTool::Vitest => "vitest.config.mjs"@,
        TestTool::Jest => "jest.config.js"@,
        TestTool::NoTestTool => Seq::empty(),
    }
}

fn fetch(catalog: &TemplateCatalog, path: &str) -> (r: Result<String, TemplateError>)
    ensures
        match r {
            Ok(c) => lookup_entries(catalog@, path@) == Option::Some(c@),
            Err(e) => lookup_entries(catalog@, path@) is None && (e matches
            TemplateError::TemplateMissing(p) && p@ == path@),
        },
{
    match catalog.get_resource(path) {
        Some(c) => Ok(c),
        None => Err(TemplateError::TemplateMissing(String::from_str(path))),
    }
}

/// The TypeScript compiler configuration, copied through unchanged.
pub fn generate_tsconfig(catalog: &TemplateCatalog) -> (r: Result<TemplateFile, TemplateError>)
    ensures
        match r {
            Ok(f) => lookup_entries(catalog@, "tsconfig.json"@) == Option::Some(f.content@)
                && f.file_path@ == "tsconfig.json"@,
            Err(e) => lookup_entries(catalog@, "tsconfig.json"@) is None && (e matches
            TemplateError::TemplateMissing(p) && p@ == "tsconfig.json"@),
        },
{
    let content = match fetch(catalog, "tsconfig.json") {
        Ok(c) => c,
        Err(e) => {
            return Err(e);
        },
    };
    Ok(TemplateFile { file_path: String::from_str("tsconfig.json"), content })
}

/// The readme, copied through unchanged.
pub fn generate_readme(catalog: &TemplateCatalog) -> (r: Result<TemplateFile, TemplateError>)
    ensures
        match r {
            Ok(f) => lookup_entries(catalog@, "README.md"@) == Option::Some(f.content@)
                && f.file_path@ == "README.md"@,
            Err(e) => lookup_entries(catalog@, "README.md"@) is None && (e matches
            TemplateError::TemplateMissing(p) && p@ == "README.md"@),
        },
{
    let content = match fetch(catalog, "README.md") {
        Ok(c) => c,
        Err(e) => {
            return Err(e);
        },
    };
    Ok(TemplateFile { file_path: String::from_str("README.md"), content })
}

/// The packaging ignore file, copied through unchanged.
pub fn generate_npmignore(catalog: &TemplateCatalog) -> (r: Result<TemplateFile, TemplateError>)
    ensures
        match r {
            Ok(f) => lookup_entries(catalog@, ".npmignore"@) == Option::Some(f.content@)
                && f.file_path@ == ".npmignore"@,
            Err(e) => lookup_entries(catalog@, ".npmignore"@) is None && (e matches
            TemplateError::TemplateMissing(p) && p@ == ".npmignore"@),
        },
{
    let content = match fetch(catalog, ".npmignore") {
        Ok(c) => c,
        Err(e) => {
            return Err(e);
        },
    };
    Ok(TemplateFile { file_path: String::from_str(".npmignore"), content })
}

/// The IaC-tool configuration with the project name substituted.
pub fn generate_cdk_json(project_name: &str, catalog: &TemplateCatalog) -> (r: Result<
    TemplateFile,
    TemplateError,
>)
    ensures
        match r {
            Ok(f) => lookup_entries(catalog@, "cdk.json"@) is Some && f.file_path@ == "cdk.json"@
                && f.content@ == replace_of(
                lookup_entries(catalog@, "cdk.json"@)->Some_0,
                pn_token(),
                project_name@,
            ),
            Err(e) => lookup_entries(catalog@, "cdk.json"@) is None && (e matches
            TemplateError::TemplateMissing(p) && p@ == "cdk.json"@),
        },
{
    let content = match fetch(catalog, "cdk.json") {
        Ok(c) => c,
        Err(e) => {
            return Err(e);
        },
    };
    proof {
        reveal_strlit("%project-name%");
    }
    let replaced = replace_all(content.as_str(), "%project-name%", project_name);
    Ok(TemplateFile { file_path: String::from_str("cdk.json"), content: replaced })
}

/// The ignore file with the test tool's config file name substituted.
pub fn generate_gitignore(config: &ProjectConfig, catalog: &TemplateCatalog) -> (r: Result<
    TemplateFile,
    TemplateError,
>)
    ensures
        match r {
            Ok(f) => lookup_entries(catalog@, ".gitignore"@) is Some && f.file_path@
                == ".gitignore"@ && f.content@ == replace_of(
                lookup_entries(catalog@, ".gitignore"@)->Some_0,
                "%test_file%"@,
                test_file_frag(config.test_tool),
            ),
            Err(e) => lookup_entries(catalog@, ".gitignore"@) is None && (e matches
            TemplateError::TemplateMissing(p) && p@ == ".gitignore"@),
        },
{
    let content = match fetch(catalog, ".gitignore") {
        Ok(c) => c,
        Err(e) => {
            return Err(e);
        },
    };
    let test_file = match config.test_tool {
        TestTool::Vitest => "vitest.config.mjs",
        TestTool::Jest => "jest.config.mjs",
        TestTool::NoTestTool => "",
    };
    proof {
        reveal_strlit("%test_file%");
        reveal_strlit("");
    }
    assert(test_file@ =~= test_file_frag(config.test_tool));
    let replaced = replace_all(content.as_str(), "%test_file%", test_file);
    Ok(TemplateFile { file_path: String::from_str(".gitignore"), content: replaced })
}

/// The package manifest with every command and module token substituted and
/// the cleanup pass applied.
pub fn generate_package_json(
    config: &ProjectConfig,
    project_name: &str,
    catalog: &TemplateCatalog,
) -> (r: Result<TemplateFile, TemplateError>)
    ensures
        match r {
            Ok(f) => lookup_entries(catalog@, "package.json"@) is Some && f.file_path@
                == "package.json"@ && f.content@ == package_json_content(
                lookup_entries(catalog@, "package.json"@)->Some_0,
                project_name@,
                *config,
            ),
            Err(e) => lookup_entries(catalog@, "package.json"@) is None && (e matches
            TemplateError::TemplateMissing(p) && p@ == "package.json"@),
        },
{
    let content = match fetch(catalog, "package.json") {
        Ok(c) => c,
        Err(e) => {
            return Err(e);
        },
    };
    proof {
        reveal_strlit("%project-name%");
        reveal_strlit("%test_command%");
        reveal_strlit("%lint_command%");
        reveal_strlit("%format_command%");
        reveal_strlit("%test_module%");
        reveal_strlit("%lint_module%");
        reveal_strlit("%format_module%");
        reveal_strlit("");
    }
    let c1 = replace_all(content.as_str(), "%project-name%", project_name);

    let test_command = match config.test_tool {
        TestTool::Vitest => "test\": \"vitest --run",
        TestTool::Jest => "test\": \"jest",
        TestTool::NoTestTool => "",
    };
    assert(test_command@ =~= test_command_frag(config.test_tool));
    let c2 = replace_all(c1.as_str(), "%test_command%", test_command);

    let lint_command = match config.linter {
        Linter::EsLint => "lint\": \"eslint --config eslint.config.mjs",
        Linter::Biome => "lint\": \"biome lint",
        Linter::NoLinter => "",
    };
    assert(lint_command@ =~= lint_command_frag(config.linter));
    let c3 = replace_all(c2.as_str(), "%lint_command%", lint_command);

    let format_command = match config.formatter {
        Formatter::Prettier => "format\": \"prettier --write '**/*.ts' --ignore-path .prettierignore",
        Formatter::Biome => "format\": \"biome format",
        Formatter::NoFormatter => "",
    };
    assert(format_command@ =~= format_command_frag(config.formatter));
    let c4 = replace_all(c3.as_str(), "%format_command%", format_command);

    let test_module = match config.test_tool {
        TestTool::Vitest => "vitest\": \"^3.0.4",
        TestTool::Jest => "@types/jest\": \"^29.5.14\",\n    \"jest\": \"^29.7.0\",\n    \"ts-jest\": \"^29.2.5",
        TestTool::NoTestTool => "",
    };
    assert(test_module@ =~= test_module_frag(config.test_tool));
    let c5 = replace_all(c4.as_str(), "%test_module%", test_module);

    let lint_module = match config.linter {
        Linter::EsLint => "@eslint/js\": \"^9.19.0\",\n    \"typescript-eslint\": \"^8.14.0\",\n    \"eslint-cdk-plugin\": \"^1.1.1",
        Linter::Biome => "biome\": \"^1.6.0",
        Linter::NoLinter => "",
    };
    assert(lint_module@ =~= lint_module_frag(config.linter));
    let c6 = replace_all(c5.as_str(), "%lint_module%", lint_module);

    let format_module = match config.formatter {
        Formatter::Prettier => "prettier\": \"^3.4.2",
        Formatter::Biome => match config.linter {
            Linter::Biome => "",
            _ => "biome\": \"^1.6.0",
        },
        Formatter::NoFormatter => "",
    };
    assert(format_module@ =~= format_module_frag(config.formatter, config.linter));
    let c7 = replace_all(c6.as_str(), "%format_module%", format_module);

    let cleaned = remove_empty_lines_and_quotes(c7.as_str());
    Ok(TemplateFile { file_path: String::from_str("package.json"), content: cleaned })
}

fn generate_named_file(
    template_path: &str,
    kebab_case_name: &str,
    pascal_case_name: &str,
    catalog: &TemplateCatalog,
) -> (r: Result<TemplateFile, TemplateError>)
    ensures
        match r {
            Ok(f) => lookup_entries(catalog@, template_path@) is Some && f.file_path@
                == replace_of(template_path@, pn_token(), kebab_case_name@) && f.content@
                == named_file_content(
                lookup_entries(catalog@, template_path@)->Some_0,
                kebab_case_name@,
                pascal_case_name@,
            ),
            Err(e) => lookup_entries(catalog@, template_path@) is None && (e matches
            TemplateError::TemplateMissing(p) && p@ == template_path@),
        },
{
    let content = match fetch(catalog, template_path) {
        Ok(c) => c,
        Err(e) => {
            return Err(e);
        },
    };
    proof {
        reveal_strlit("%project-name%");
        reveal_strlit("%ProjectName%");
    }
    let file_path = replace_all(template_path, "%project-name%", kebab_case_name);
    let c1 = replace_all(content.as_str(), "%project-name%", kebab_case_name);
    let c2 = replace_all(c1.as_str(), "%ProjectName%", pascal_case_name);
    Ok(TemplateFile { file_path, content: c2 })
}

/// The unit-test file, named after the project.
pub fn generate_test_file(
    kebab_case_name: &str,
    pascal_case_name: &str,
    catalog: &TemplateCatalog,
) -> (r: Result<TemplateFile, TemplateError>)
    ensures
        match r {
            Ok(f) => lookup_entries(catalog@, test_template_path()) is Some && f.file_path@
                == replace_of(test_template_path(), pn_token(), kebab_case_name@) && f.content@
                == named_file_content(
                lookup_entries(catalog@, test_template_path())->Some_0,
                kebab_case_name@,
                pascal_case_name@,
            ),
            Err(e) => lookup_entries(catalog@, test_template_path()) is None && (e matches
            TemplateError::TemplateMissing(p) && p@ == test_template_path()),
        },
{
    generate_named_file("test/%project-name%.test.ts", kebab_case_name, pascal_case_name, catalog)
}

/// The stack library file, named after the project.
pub fn generate_lib_file(
    kebab_case_name: &str,
    pascal_case_name: &str,
    catalog: &TemplateCatalog,
) -> (r: Result<TemplateFile, TemplateError>)
    ensures
        match r {
            Ok(f) => lookup_entries(catalog@, lib_template_path()) is Some && f.file_path@
                == replace_of(lib_template_path(), pn_token(), kebab_case_name@) && f.content@
                == named_file_content(
                lookup_entries(catalog@, lib_template_path())->Some_0,
                kebab_case_name@,
                pascal_case_name@,
            ),
            Err(e) => lookup_entries(catalog@, lib_template_path()) is None && (e matches
            TemplateError::TemplateMissing(p) && p@ == lib_template_path()),
        },
{
    generate_named_file("lib/%project-name%-stack.ts", kebab_case_name, pascal_case_name, catalog)
}

/// The entry-point file, named after the project.
pub fn generate_bin_file(
    kebab_case_name: &str,
    pascal_case_name: &str,
    catalog: &TemplateCatalog,
) -> (r: Result<TemplateFile, TemplateError>)
    ensures
        match r {
            Ok(f) => lookup_entries(catalog@, bin_template_path()) is Some && f.file_path@
                == replace_of(bin_template_path(), pn_token(), kebab_case_name@) && f.content@
                == named_file_content(
                lookup_entries(catalog@, bin_template_path())->Some_0,
                kebab_case_name@,
                pascal_case_name@,
            ),
            Err(e) => lookup_entries(catalog@, bin_template_path()) is None && (e matches
            TemplateError::TemplateMissing(p) && p@ == bin_template_path()),
        },
{
    generate_named_file("bin/%project-name%.ts", kebab_case_name, pascal_case_name, catalog)
}

/// The lint-config file for the chosen linter: absent exactly when no linter
/// is chosen, copied through unchanged otherwise.
pub fn generate_lint_config_file(config: &ProjectConfig, catalog: &TemplateCatalog) -> (r: Result<
    Option<TemplateFile>,
    TemplateError,
>)
    ensures
        match r {
            Ok(opt) => match opt {
                Some(f) => config.linter != Linter::NoLinter && lookup_entries(
                    catalog@,
                    lint_config_key(config.linter),
                ) == Option::Some(f.content@) && f.file_path@ == lint_config_key(config.linter),
                None => config.linter == Linter::NoLinter,
            },
            Err(e) => config.linter != Linter::NoLinter && lookup_entries(
                catalog@,
                lint_config_key(config.linter),
            ) is None && (e matches TemplateError::TemplateMissing(p) && p@ == lint_config_key(
                config.linter,
            )),
        },
{
    let key = match config.linter {
        Linter::EsLint => "eslint.config.mjs",
        Linter::Biome => "biome.json",
        Linter::NoLinter => {
            return Ok(None);
        },
    };
    assert(key@ == lint_config_key(config.linter));
    let content = match fetch(catalog, key) {
        Ok(c) => c,
        Err(e) => {
            return Err(e);
        },
    };
    Ok(Some(TemplateFile { file_path: String::from_str(key), content }))
}

/// The test-config file for the chosen test tool: absent exactly when no
/// test tool is chosen, copied through unchanged otherwise.
pub fn generate_test_config_file(config: &ProjectConfig, catalog: &TemplateCatalog) -> (r: Result<
    Option<TemplateFile>,
    TemplateError,
>)
    ensures
        match r {
            Ok(opt) => match opt {
                Some(f) => config.test_tool != TestTool::NoTestTool && lookup_entries(
                    catalog@,
                    test_config_key(config.test_tool),
                ) == Option::Some(f.content@) && f.file_path@ == test_config_key(config.test_tool),
                None => config.test_tool == TestTool::NoTestTool,
            },
            Err(e) => config.test_tool != TestTool::NoTestTool && lookup_entries(
                catalog@,
                test_config_key(config.test_tool),
            ) is None && (e matches TemplateError::TemplateMissing(p) && p@ == test_config_key(
                config.test_tool,
            )),
        },
{
    let key = match config.test_tool {
        TestTool::Vitest => "vitest.config.mjs",
        TestTool::Jest => "jest.config.js",
        TestTool::NoTestTool => {
            return Ok(None);
        },
    };
    assert(key@ == test_config_key(config.test_tool));
    let content = match fetch(catalog, key) {
        Ok(c) => c,
        Err(e) => {
            return Err(e);
        },
    };
    Ok(Some(TemplateFile { file_path: String::from_str(key), content }))
}

/// The formatter-config file: present only for Prettier; Biome needs no
/// separate formatter file and no formatter needs none either.
pub fn generate_formatter_config_file(
    config: &ProjectConfig,
    catalog: &TemplateCatalog,
) -> (r: Result<Option<TemplateFile>, TemplateError>)
    ensures
        match r {
            Ok(opt) => match opt {
                Some(f) => config.formatter == Formatter::Prettier && lookup_entries(
                    catalog@,
                    ".prettierrc"@,
                ) == Option::Some(f.content@) && f.file_path@ == ".prettierrc"@,
                None => config.formatter != Formatter::Prettier,
            },
            Err(e) => config.formatter == Formatter::Prettier && lookup_entries(
                catalog@,
                ".prettierrc"@,
            ) is None && (e matches TemplateError::TemplateMissing(p) && p@ == ".prettierrc"@),
        },
{
    match config.formatter {
        Formatter::Prettier => {},
        Formatter::Biome => {
            return Ok(None);
        },
        Formatter::NoFormatter => {
            return Ok(None);
        },
    }
    let content = match fetch(catalog, ".prettierrc") {
        Ok(c) => c,
        Err(e) => {
            return Err(e);
        },
    };
    Ok(Some(TemplateFile { file_path: String::from_str(".prettierrc"), content }))
}

/// The content stored in the catalog under `key`, where it is known to be
/// present.
pub open spec fn template_at(cat: Seq<(Seq<char>, Seq<char>)>, key: Seq<char>) -> Seq<char> {
    lookup_entries(cat, key)->Some_0
}

/// The nine output files that every run emits, in emission order, as
/// `(path, content)` pairs.
pub open spec fn required_pairs(cat: Seq<(Seq<char>, Seq<char>)>, c: ProjectConfig) -> Seq<
    (Seq<char>, Seq<char>),
> {
    let kebab = kebab_of(c.name@);
    let pascal = pascal_of_kebab(kebab);
    seq![
        ("package.json"@, package_json_content(template_at(cat, "package.json"@), kebab, c)),
        ("tsconfig.json"@, template_at(cat, "tsconfig.json"@)),
        ("README.md"@, template_at(cat, "README.md"@)),
        ("cdk.json"@, replace_of(template_at(cat, "cdk.json"@), pn_token(), kebab)),
        (
            ".gitignore"@,
            replace_of(
                template_at(cat, ".gitignore"@),
                "%test_file%"@,
                test_file_frag(c.test_tool),
            ),
        ),
        (".npmignore"@, template_at(cat, ".npmignore"@)),
        (
            replace_of(test_template_path(), pn_token(), kebab),
            named_file_content(template_at(cat, test_template_path()), kebab, pascal),
        ),
        (
            replace_of(lib_template_path(), pn_token(), kebab),
            named_file_content(template_at(cat, lib_template_path()), kebab, pascal),
        ),
        (
            replace_of(bin_template_path(), pn_token(), kebab),
            named_file_content(template_at(cat, bin_template_path()), kebab, pascal),
        ),
    ]
}

/// The optional output files a configuration selects, in emission order:
/// lint config, then test config, then formatter config.
pub open spec fn optional_pairs(cat: Seq<(Seq<char>, Seq<char>)>, c: ProjectConfig) -> Seq<
    (Seq<char>, Seq<char>),
> {
    (if c.linter == Linter::NoLinter {
        Seq::empty()
    } else {
        seq![(lint_config_key(c.linter), template_at(cat, lint_config_key(c.linter)))]
    }) + (if c.test_tool == TestTool::NoTestTool {
        Seq::empty()
    } else {
        seq![(test_config_key(c.test_tool), template_at(cat, test_config_key(c.test_tool)))]
    }) + (if c.formatter == Formatter::Prettier {
        seq![(".prettierrc"@, template_at(cat, ".prettierrc"@))]
    } else {
        Seq::empty()
    })
}

/// Everything one run resolves, in emission order: the required files, then
/// the optional ones.
pub open spec fn resolved_pairs(cat: Seq<(Seq<char>, Seq<char>)>, c: ProjectConfig) -> Seq<
    (Seq<char>, Seq<char>),
> {
    required_pairs(cat, c) + optional_pairs(cat, c)
}

/// The first resource, in generation order, that resolution needs and the
/// catalog lacks; `None` when resolution succeeds.
pub open spec fn first_missing(cat: Seq<(Seq<char>, Seq<char>)>, c: ProjectConfig) -> Option<
    Seq<char>,
> {
    if lookup_entries(cat, "tsconfig.json"@) is None {
        Option::Some("tsconfig.json"@)
    } else if lookup_entries(cat, "README.md"@) is None {
        Option::Some("README.md"@)
    } else if lookup_entries(cat, "package.json"@) is None {
        Option::Some("package.json"@)
    } else if lookup_entries(cat, "cdk.json"@) is None {
        Option::Some("cdk.json"@)
    } else if lookup_entries(cat, ".gitignore"@) is None {
        Option::Some(".gitignore"@)
    } else if lookup_entries(cat, ".npmignore"@) is None {
        Option::Some(".npmignore"@)
    } else if lookup_entries(cat, test_template_path()) is None {
        Option::Some(test_template_path())
    } else if lookup_entries(cat, lib_template_path()) is None {
        Option::Some(lib_template_path())
    } else if lookup_entries(cat, bin_template_path()) is None {
        Option::Some(bin_template_path())
    } else if c.linter != Linter::NoLinter && lookup_entries(
        cat,
        lint_config_key(c.linter),
    ) is None {
        Option::Some(lint_config_key(c.linter))
    } else if c.test_tool != TestTool::NoTestTool && lookup_entries(
        cat,
        test_config_key(c.test_tool),
    ) is None {
        Option::Some(test_config_key(c.test_tool))
    } else if c.formatter == Formatter::Prettier && lookup_entries(cat, ".prettierrc"@) is None {
        Option::Some(".prettierrc"@)
    } else {
        Option::None
    }
}

/// Resolves the complete ordered set of output files for one configuration:
/// the nine required files first, then the optional lint, test and formatter
/// config files the configuration selects. Fails with the first missing
/// resource, in generation order, and resolves nothing partially.
pub fn generate_template_files(config: &ProjectConfig, catalog: &TemplateCatalog) -> (r: Result<
    Vec<TemplateFile>,
    TemplateError,
>)
    ensures
        match r {
            Ok(v) => first_missing(catalog@, *config) is None && v@.len() == resolved_pairs(
                catalog@,
                *config,
            ).len() && forall|i: int|
                0 <= i < v@.len() ==> (#[trigger] v@[i]).file_path@ == resolved_pairs(
                    catalog@,
                    *config,
                )[i].0 && v@[i].content@ == resolved_pairs(catalog@, *config)[i].1,
            Err(e) => first_missing(catalog@, *config) is Some && (e matches
            TemplateError::TemplateMissing(p) && p@ == first_missing(catalog@, *config)->Some_0),
        },
{
    let kebab_case_name = convert_to_kebab_case(config.name.as_str());
    let pascal_case_name = kebab_case_to_pascal_case(kebab_case_name.as_str());

    let tsconfig = match generate_tsconfig(catalog) {
        Ok(f) => f,
        Err(e) => {
            return Err(e);
        },
    };
    let readme = match generate_readme(catalog) {
        Ok(f) => f,
        Err(e) => {
            return Err(e);
        },
    };
    let package_json = match generate_package_json(config, kebab_case_name.as_str(), catalog) {
        Ok(f) => f,
        Err(e) => {
            return Err(e);
        },
    };
    let cdk_json = match generate_cdk_json(kebab_case_name.as_str(), catalog) {
        Ok(f) => f,
        Err(e) => {
            return Err(e);
        },
    };
    let gitignore = match generate_gitignore(config, catalog) {
        Ok(f) => f,
        Err(e) => {
            return Err(e);
        },
    };
    let npmignore_file = match generate_npmignore(catalog) {
        Ok(f) => f,
        Err(e) => {
            return Err(e);
        },
    };
    let test_file = match generate_test_file(
        kebab_case_name.as_str(),
        pascal_case_name.as_str(),
        catalog,
    ) {
        Ok(f) => f,
        Err(e) => {
            return Err(e);
        },
    };
    let lib_file = match generate_lib_file(
        kebab_case_name.as_str(),
        pascal_case_name.as_str(),
        catalog,
    ) {
        Ok(f) => f,
        Err(e) => {
            return Err(e);
        },
    };
    let bin_file = match generate_bin_file(
        kebab_case_name.as_str(),
        pascal_case_name.as_str(),
        catalog,
    ) {
        Ok(f) => f,
        Err(e) => {
            return Err(e);
        },
    };
    let lint_config_file = match generate_lint_config_file(config, catalog) {
        Ok(opt) => opt,
        Err(e) => {
            return Err(e);
        },
    };
    let test_config_file = match generate_test_config_file(config, catalog) {
        Ok(opt) => opt,
        Err(e) => {
            return Err(e);
        },
    };
    let formatter_config_file = match generate_formatter_config_file(config, catalog) {
        Ok(opt) => opt,
        Err(e) => {
            return Err(e);
        },
    };

    let ghost ps = resolved_pairs(catalog@, *config);
    let ghost rq = required_pairs(catalog@, *config);
    let ghost op = optional_pairs(catalog@, *config);

    let mut files: Vec<TemplateFile> = Vec::new();
    files.push(package_json);
    files.push(tsconfig);
    files.push(readme);
    files.push(cdk_json);
    files.push(gitignore);
    files.push(npmignore_file);
    files.push(test_file);
    files.push(lib_file);
    files.push(bin_file);
    proof {
        assert(forall|i: int| 0 <= i < 9 ==> ps[i] == rq[i]);
        assert(forall|i: int|
            9 <= i < ps.len() ==> #[trigger] ps[i] == op[i - 9]);
        assert(forall|i: int|
            0 <= i < files@.len() ==> (#[trigger] files@[i]).file_path@ == ps[i].0
                && files@[i].content@ == ps[i].1);
    }
    match lint_config_file {
        Some(f) => {
            files.push(f);
        },
        None => {},
    }
    proof {
        if config.linter == Linter::NoLinter {
            assert(op.take(0) =~= Seq::<(Seq<char>, Seq<char>)>::empty());
        } else {
            assert(op[0] == (lint_config_key(config.linter), template_at(
                catalog@,
                lint_config_key(config.linter),
            )));
        }
        assert(forall|i: int|
            0 <= i < files@.len() ==> (#[trigger] files@[i]).file_path@ == ps[i].0
                && files@[i].content@ == ps[i].1);
    }
    let ghost after_lint = files@.len() as int;
    match test_config_file {
        Some(f) => {
            files.push(f);
        },
        None => {},
    }
    proof {
        if config.test_tool != TestTool::NoTestTool {
            assert(op[after_lint - 9] == (test_config_key(config.test_tool), template_at(
                catalog@,
                test_config_key(config.test_tool),
            )));
        }
        assert(forall|i: int|
            0 <= i < files@.len() ==> (#[trigger] files@[i]).file_path@ == ps[i].0
                && files@[i].content@ == ps[i].1);
    }
    let ghost after_test = files@.len() as int;
    match formatter_config_file {
        Some(f) => {
            files.push(f);
        },
        None => {},
    }
    proof {
        if config.formatter == Formatter::Prettier {
            assert(op[after_test - 9] == (".prettierrc"@, template_at(catalog@, ".prettierrc"@)));
        }
        assert(files@.len() == ps.len());
        assert(forall|i: int|
            0 <= i < files@.len() ==> (#[trigger] files@[i]).file_path@ == ps[i].0
                && files@[i].content@ == ps[i].1);
    }
    Ok(files)
}

/// Where the lint-config file stands in the resolved output when a linter is
/// chosen: right after the nine required files.
pub open spec fn lint_slot() -> int {
    9
}

/// Where the test-config file stands when a test tool is chosen.
pub open spec fn test_slot(c: ProjectConfig) -> int {
    9 + if c.linter == Linter::NoLinter {
        0int
    } else {
        1int
    }
}

/// Where the formatter-config file stands when the formatter is Prettier.
pub open spec fn formatter_slot(c: ProjectConfig) -> int {
    test_slot(c) + if c.test_tool == TestTool::NoTestTool {
        0int
    } else {
        1int
    }
}

proof fn lemma_named_path_prefix(tpl: Seq<char>, kebab: Seq<char>, k: int)
    requires
        0 <= k <= tpl.len(),
        forall|j: int| 0 <= j < k ==> #[trigger] tpl[j] != '%',
        pn_token().len() > 0,
        pn_token()[0] == '%',
    ensures
        replace_of(tpl, pn_token(), kebab).len() >= k,
        forall|j: int| 0 <= j < k ==> #[trigger] replace_of(tpl, pn_token(), kebab)[j] == tpl[j],
{
    assert forall|j: int| 0 <= j < k implies !occurs_at(tpl, pn_token(), j) by {
        if occurs_at(tpl, pn_token(), j) {
            assert(tpl.subrange(j, j + pn_token().len() as int)[0] == tpl[j]);
            assert(tpl[j] == '%');
        }
    }
    lemma_replace_prefix(tpl, pn_token(), kebab, k);
    let t = replace_of(tpl, pn_token(), kebab);
    assert forall|j: int| 0 <= j < k implies #[trigger] t[j] == tpl[j] by {
        assert(t[j] == tpl.take(k)[j]);
    }
}

/// Law: for each axis whose choice is the no-tool variant, no file of the
/// resolved output carries that axis's config-file path; when a linter or a
/// test tool is chosen, or the formatter is Prettier, exactly one output
/// file carries the corresponding path. (A Biome formatter emits no
/// formatter-config file of its own: its settings travel with the lint
/// config.)
pub proof fn lemma_optional_file_presence(cat: Seq<(Seq<char>, Seq<char>)>, c: ProjectConfig)
    ensures
        c.linter == Linter::NoLinter ==> forall|i: int|
            0 <= i < resolved_pairs(cat, c).len() ==> (#[trigger] resolved_pairs(cat, c)[i]).0
                != lint_config_key(Linter::EsLint) && resolved_pairs(cat, c)[i].0
                != lint_config_key(Linter::Biome),
        c.linter != Linter::NoLinter ==> resolved_pairs(cat, c)[lint_slot()].0 == lint_config_key(
            c.linter,
        ) && forall|i: int|
            0 <= i < resolved_pairs(cat, c).len() && i != lint_slot() ==> (
            #[trigger] resolved_pairs(cat, c)[i]).0 != lint_config_key(c.linter),
        c.test_tool == TestTool::NoTestTool ==> forall|i: int|
            0 <= i < resolved_pairs(cat, c).len() ==> (#[trigger] resolved_pairs(cat, c)[i]).0
                != test_config_key(TestTool::Jest) && resolved_pairs(cat, c)[i].0
                != test_config_key(TestTool::Vitest),
        c.test_tool != TestTool::NoTestTool ==> resolved_pairs(cat, c)[test_slot(c)].0
            == test_config_key(c.test_tool) && forall|i: int|
            0 <= i < resolved_pairs(cat, c).len() && i != test_slot(c) ==> (
            #[trigger] resolved_pairs(cat, c)[i]).0 != test_config_key(c.test_tool),
        c.formatter != Formatter::Prettier ==> forall|i: int|
            0 <= i < resolved_pairs(cat, c).len() ==> (#[trigger] resolved_pairs(cat, c)[i]).0
                != ".prettierrc"@,
        c.formatter == Formatter::Prettier ==> resolved_pairs(cat, c)[formatter_slot(c)].0
            == ".prettierrc"@ && forall|i: int|
            0 <= i < resolved_pairs(cat, c).len() && i != formatter_slot(c) ==> (
            #[trigger] resolved_pairs(cat, c)[i]).0 != ".prettierrc"@,
{
    let ps = resolved_pairs(cat, c);
    let rq = required_pairs(cat, c);
    let op = optional_pairs(cat, c);
    let kebab = kebab_of(c.name@);
    reveal_strlit("%project-name%");
    reveal_strlit("package.json");
    reveal_strlit("tsconfig.json");
    reveal_strlit("README.md");
    reveal_strlit("cdk.json");
    reveal_strlit(".gitignore");
    reveal_strlit(".npmignore");
    reveal_strlit("test/%project-name%.test.ts");
    reveal_strlit("lib/%project-name%-stack.ts");
    reveal_strlit("bin/%project-name%.ts");
    reveal_strlit("eslint.config.mjs");
    reveal_strlit("biome.json");
    reveal_strlit("vitest.config.mjs");
    reveal_strlit("jest.config.js");
    reveal_strlit(".prettierrc");
    let ke = lint_config_key(Linter::EsLint);
    let kb = lint_config_key(Linter::Biome);
    let kv = test_config_key(TestTool::Vitest);
    let kj = test_config_key(TestTool::Jest);
    let kp = ".prettierrc"@;
    assert(ke.len() == 17 && ke[0] == 'e');
    assert(kb.len() == 10 && kb[0] == 'b' && kb[2] == 'o');
    assert(kv.len() == 17 && kv[0] == 'v');
    assert(kj.len() == 14 && kj[0] == 'j');
    assert(kp.len() == 11 && kp[0] == '.');
    assert("package.json"@.len() == 12);
    assert("tsconfig.json"@.len() == 13);
    assert("README.md"@.len() == 9);
    assert("cdk.json"@.len() == 8);
    assert(".gitignore"@.len() == 10 && ".gitignore"@[0] == '.');
    assert(".npmignore"@.len() == 10 && ".npmignore"@[0] == '.');
    lemma_named_path_prefix(test_template_path(), kebab, 5);
    lemma_named_path_prefix(lib_template_path(), kebab, 4);
    lemma_named_path_prefix(bin_template_path(), kebab, 4);
    let tp = replace_of(test_template_path(), pn_token(), kebab);
    let lp = replace_of(lib_template_path(), pn_token(), kebab);
    let bp = replace_of(bin_template_path(), pn_token(), kebab);
    assert(tp.len() >= 5 && tp[0] == 't');
    assert(lp.len() >= 4 && lp[0] == 'l');
    assert(bp.len() >= 4 && bp[0] == 'b' && bp[1] == 'i' && bp[2] == 'n');
    assert(rq[6].0 == tp && rq[7].0 == lp && rq[8].0 == bp);
    assert forall|i: int| 0 <= i < 9 implies (#[trigger] rq[i]).0 != ke && rq[i].0 != kb
        && rq[i].0 != kv && rq[i].0 != kj && rq[i].0 != kp by {
        if i == 6 {
            assert(rq[i].0 == tp);
        } else if i == 7 {
            assert(rq[i].0 == lp);
        } else if i == 8 {
            assert(rq[i].0 == bp);
        }
    }
    let lpres: int = if c.linter == Linter::NoLinter { 0 } else { 1 };
    let tpres: int = if c.test_tool == TestTool::NoTestTool { 0 } else { 1 };
    let fpres: int = if c.formatter == Formatter::Prettier { 1 } else { 0 };
    assert(op.len() == lpres + tpres + fpres);
    assert(ps.len() == 9 + op.len());
    assert(forall|i: int| 0 <= i < 9 ==> #[trigger] ps[i] == rq[i]);
    assert(forall|i: int| 9 <= i < ps.len() ==> #[trigger] ps[i] == op[i - 9]);
    if c.linter != Linter::NoLinter {
        assert(op[0].0 == lint_config_key(c.linter));
    }
    if c.test_tool != TestTool::NoTestTool {
        assert(op[lpres].0 == test_config_key(c.test_tool));
    }
    if c.formatter == Formatter::Prettier {
        assert(op[lpres + tpres].0 == kp);
    }
    assert forall|j: int| 0 <= j < op.len() implies (c.linter != Linter::NoLinter && j == 0
        && (#[trigger] op[j]).0 == lint_config_key(c.linter)) || (c.test_tool
        != TestTool::NoTestTool && j == lpres && op[j].0 == test_config_key(c.test_tool)) || (
    c.formatter == Formatter::Prettier && j == lpres + tpres && op[j].0 == kp) by {
    }
    if c.linter == Linter::NoLinter {
        assert forall|i: int| 0 <= i < ps.len() implies (#[trigger] ps[i]).0 != ke && ps[i].0
            != kb by {
            if i < 9 {
                assert(ps[i].0 == rq[i].0);
            } else {
                assert(ps[i].0 == op[i - 9].0);
            }
        }
    } else {
        assert(ps[lint_slot()].0 == lint_config_key(c.linter));
        assert forall|i: int| 0 <= i < ps.len() && i != lint_slot() implies (
        #[trigger] ps[i]).0 != lint_config_key(c.linter) by {
            if i < 9 {
                assert(ps[i].0 == rq[i].0);
            } else {
                assert(ps[i].0 == op[i - 9].0);
                assert(i - 9 != 0);
            }
        }
    }
    if c.test_tool == TestTool::NoTestTool {
        assert forall|i: int| 0 <= i < ps.len() implies (#[trigger] ps[i]).0 != kj && ps[i].0
            != kv by {
            if i < 9 {
                assert(ps[i].0 == rq[i].0);
            } else {
                assert(ps[i].0 == op[i - 9].0);
            }
        }
    } else {
        assert(ps[test_slot(c)].0 == test_config_key(c.test_tool));
        assert forall|i: int| 0 <= i < ps.len() && i != test_slot(c) implies (
        #[trigger] ps[i]).0 != test_config_key(c.test_tool) by {
            if i < 9 {
                assert(ps[i].0 == rq[i].0);
            } else {
                assert(ps[i].0 == op[i - 9].0);
                assert(i - 9 != lpres);
            }
        }
    }
    if c.formatter != Formatter::Prettier {
        assert forall|i: int| 0 <= i < ps.len() implies (#[trigger] ps[i]).0 != ".prettierrc"@ by {
            if i < 9 {
                assert(ps[i].0 == rq[i].0);
            } else {
                assert(ps[i].0 == op[i - 9].0);
            }
        }
    } else {
        assert(ps[formatter_slot(c)].0 == kp);
        assert forall|i: int| 0 <= i < ps.len() && i != formatter_slot(c) implies (
        #[trigger] ps[i]).0 != ".prettierrc"@ by {
            if i < 9 {
                assert(ps[i].0 == rq[i].0);
            } else {
                assert(ps[i].0 == op[i - 9].0);
                assert(i - 9 != lpres + tpres);
            }
        }
    }
}

} // verus!
