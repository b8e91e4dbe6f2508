use ts_cdk::catalog::TemplateCatalog;
use ts_cdk::config::{Formatter, Linter, PackageManager, ProjectConfig, TestTool};
use ts_cdk::templates::{
    generate_cdk_json, generate_formatter_config_file, generate_gitignore,
    generate_lint_config_file, generate_package_json, generate_template_files,
    generate_test_config_file, generate_test_file, TemplateError, TemplateFile,
};

const MANIFEST_TEMPLATE: &str = "{\n  \"name\": \"%project-name%\",\n  \"scripts\": {\n    \"%test_command%\",\n    \"%lint_command%\",\n    \"%format_command%\"\n  },\n  \"devDependencies\": {\n    \"%test_module%\",\n    \"%lint_module%\",\n    \"%format_module%\"\n  }\n}";

fn sample_catalog() -> TemplateCatalog {
    let mut cat = TemplateCatalog::new();
    cat.add("package.json".to_string(), MANIFEST_TEMPLATE.to_string());
    cat.add("tsconfig.json".to_string(), "{ \"compilerOptions\": {} }".to_string());
    cat.add("README.md".to_string(), "# Welcome\n".to_string());
    cat.add(
        "cdk.json".to_string(),
        "{ \"app\": \"npx ts-node bin/%project-name%.ts\" }".to_string(),
    );
    cat.add(".gitignore".to_string(), "node_modules\n%test_file%\n".to_string());
    cat.add(".npmignore".to_string(), "*.ts\n".to_string());
    cat.add(
        "test/%project-name%.test.ts".to_string(),
        "import { %ProjectName%Stack } from '../lib/%project-name%-stack';\n".to_string(),
    );
    cat.add(
        "lib/%project-name%-stack.ts".to_string(),
        "export class %ProjectName%Stack {}\n".to_string(),
    );
    cat.add(
        "bin/%project-name%.ts".to_string(),
        "new %ProjectName%Stack();\n".to_string(),
    );
    cat.add("eslint.config.mjs".to_string(), "export default [];\n".to_string());
    cat.add("biome.json".to_string(), "{ \"linter\": { \"enabled\": true } }".to_string());
    cat.add("vitest.config.mjs".to_string(), "export default {};\n".to_string());
    cat.add("jest.config.js".to_string(), "module.exports = {};\n".to_string());
    cat.add(".prettierrc".to_string(), "{ \"semi\": true }".to_string());
    cat
}

fn config(name: &str, linter: Linter, formatter: Formatter, test_tool: TestTool) -> ProjectConfig {
    ProjectConfig {
        target_dir_path: "out".to_string(),
        name: name.to_string(),
        package_manager: PackageManager::Npm,
        linter,
        formatter,
        test_tool,
    }
}

fn paths(files: &[TemplateFile]) -> Vec<&str> {
    files.iter().map(|f| f.file_path.as_str()).collect()
}

fn file<'a>(files: &'a [TemplateFile], path: &str) -> &'a TemplateFile {
    files
        .iter()
        .find(|f| f.file_path == path)
        .unwrap_or_else(|| panic!("no file {path}"))
}

#[test]
fn scenario_full_toolchain() {
    let cat = sample_catalog();
    let cfg = config("My Cool App", Linter::EsLint, Formatter::Prettier, TestTool::Jest);
    let files = generate_template_files(&cfg, &cat).unwrap();
    let ps = paths(&files);
    assert!(ps.contains(&"test/my-cool-app.test.ts"));
    assert!(ps.contains(&"lib/my-cool-app-stack.ts"));
    assert!(ps.contains(&"bin/my-cool-app.ts"));
    let test_file = file(&files, "test/my-cool-app.test.ts");
    assert!(test_file.content.contains("MyCoolApp"));
    assert!(!test_file.content.contains("%ProjectName%"));
    assert!(!test_file.content.contains("%project-name%"));
    assert_eq!(
        test_file.content,
        "import { MyCoolAppStack } from '../lib/my-cool-app-stack';\n"
    );
}

#[test]
fn scenario_no_test_tool() {
    let cat = sample_catalog();
    let cfg = config("My Cool App", Linter::EsLint, Formatter::Prettier, TestTool::NoTestTool);
    let files = generate_template_files(&cfg, &cat).unwrap();
    let ps = paths(&files);
    assert!(!ps.contains(&"jest.config.js"));
    assert!(!ps.contains(&"vitest.config.mjs"));
    let manifest = file(&files, "package.json");
    assert!(!manifest.content.contains("\"test\":"));
}

#[test]
fn scenario_no_linter_no_formatter() {
    let cat = sample_catalog();
    let cfg = config("My Cool App", Linter::NoLinter, Formatter::NoFormatter, TestTool::Jest);
    let files = generate_template_files(&cfg, &cat).unwrap();
    let ps = paths(&files);
    assert!(!ps.contains(&"eslint.config.mjs"));
    assert!(!ps.contains(&"biome.json"));
    assert!(!ps.contains(&".prettierrc"));
    let manifest = file(&files, "package.json");
    assert!(!manifest.content.contains("\"lint\":"));
    assert!(!manifest.content.contains("\"format\":"));
}

#[test]
fn emission_order_is_required_then_optional() {
    let cat = sample_catalog();
    let cfg = config("demo", Linter::Biome, Formatter::Prettier, TestTool::Vitest);
    let files = generate_template_files(&cfg, &cat).unwrap();
    assert_eq!(
        paths(&files),
        vec![
            "package.json",
            "tsconfig.json",
            "README.md",
            "cdk.json",
            ".gitignore",
            ".npmignore",
            "test/demo.test.ts",
            "lib/demo-stack.ts",
            "bin/demo.ts",
            "biome.json",
            "vitest.config.mjs",
            ".prettierrc",
        ]
    );
}

#[test]
fn optional_files_one_per_chosen_axis() {
    let cat = sample_catalog();
    let cfg = config("demo", Linter::EsLint, Formatter::Prettier, TestTool::Vitest);
    let files = generate_template_files(&cfg, &cat).unwrap();
    let ps = paths(&files);
    assert_eq!(ps.iter().filter(|p| **p == "eslint.config.mjs").count(), 1);
    assert_eq!(ps.iter().filter(|p| **p == "vitest.config.mjs").count(), 1);
    assert_eq!(ps.iter().filter(|p| **p == ".prettierrc").count(), 1);
    assert_eq!(files.len(), 12);
}

#[test]
fn biome_formatter_needs_no_own_config_file() {
    let cat = sample_catalog();
    let cfg = config("demo", Linter::EsLint, Formatter::Biome, TestTool::NoTestTool);
    let files = generate_template_files(&cfg, &cat).unwrap();
    assert!(!paths(&files).contains(&".prettierrc"));
    assert_eq!(files.len(), 10);
}

#[test]
fn biome_linter_and_formatter_single_dependency() {
    let cat = sample_catalog();
    let cfg = config("demo", Linter::Biome, Formatter::Biome, TestTool::NoTestTool);
    let files = generate_template_files(&cfg, &cat).unwrap();
    let manifest = file(&files, "package.json");
    assert_eq!(manifest.content.matches("\"biome\": \"^1.6.0\"").count(), 1);
}

#[test]
fn biome_formatter_with_eslint_brings_dependency() {
    let cat = sample_catalog();
    let cfg = config("demo", Linter::EsLint, Formatter::Biome, TestTool::NoTestTool);
    let files = generate_template_files(&cfg, &cat).unwrap();
    let manifest = file(&files, "package.json");
    assert_eq!(manifest.content.matches("\"biome\": \"^1.6.0\"").count(), 1);
    assert!(manifest.content.contains("\"@eslint/js\": \"^9.19.0\""));
    assert!(manifest.content.contains("\"format\": \"biome format\""));
}

#[test]
fn manifest_exact_content_full_choices() {
    let cat = sample_catalog();
    let cfg = config("My Cool App", Linter::EsLint, Formatter::Prettier, TestTool::Jest);
    let manifest = generate_package_json(&cfg, "my-cool-app", &cat).unwrap();
    assert_eq!(manifest.file_path, "package.json");
    let expected = "{\n  \"name\": \"my-cool-app\",\n  \"scripts\": {\n    \"test\": \"jest\",\n    \"lint\": \"eslint --config eslint.config.mjs\",\n    \"format\": \"prettier --write '**/*.ts' --ignore-path .prettierignore\"\n  },\n  \"devDependencies\": {\n    \"@types/jest\": \"^29.5.14\",\n    \"jest\": \"^29.7.0\",\n    \"ts-jest\": \"^29.2.5\",\n    \"@eslint/js\": \"^9.19.0\",\n    \"typescript-eslint\": \"^8.14.0\",\n    \"eslint-cdk-plugin\": \"^1.1.1\",\n    \"prettier\": \"^3.4.2\"\n  }\n}";
    assert_eq!(manifest.content, expected);
}

#[test]
fn manifest_exact_content_no_tools() {
    let cat = sample_catalog();
    let cfg = config("demo", Linter::NoLinter, Formatter::NoFormatter, TestTool::NoTestTool);
    let manifest = generate_package_json(&cfg, "demo", &cat).unwrap();
    let expected = "{\n  \"name\": \"demo\",\n  \"scripts\": {\n  },\n  \"devDependencies\": {\n  }\n}";
    assert_eq!(manifest.content, expected);
}

#[test]
fn manifest_has_no_empty_quote_lines() {
    let cat = sample_catalog();
    for linter in [Linter::EsLint, Linter::Biome, Linter::NoLinter] {
        for formatter in [Formatter::Prettier, Formatter::Biome, Formatter::NoFormatter] {
            for test_tool in [TestTool::Jest, TestTool::Vitest, TestTool::NoTestTool] {
                let cfg = config("demo", linter, formatter, test_tool);
                let manifest = generate_package_json(&cfg, "demo", &cat).unwrap();
                for line in manifest.content.lines() {
                    let t = line.trim();
                    assert!(t != "\"\"" && t != "\"\",", "bad line {line:?}");
                    assert!(!t.is_empty(), "empty line kept");
                }
            }
        }
    }
}

#[test]
fn gitignore_names_test_config() {
    let cat = sample_catalog();
    let cfg = config("demo", Linter::NoLinter, Formatter::NoFormatter, TestTool::Jest);
    let g = generate_gitignore(&cfg, &cat).unwrap();
    assert_eq!(g.content, "node_modules\njest.config.mjs\n");
    let cfg2 = config("demo", Linter::NoLinter, Formatter::NoFormatter, TestTool::Vitest);
    let g2 = generate_gitignore(&cfg2, &cat).unwrap();
    assert_eq!(g2.content, "node_modules\nvitest.config.mjs\n");
}

#[test]
fn cdk_json_substitutes_name() {
    let cat = sample_catalog();
    let c = generate_cdk_json("my-cool-app", &cat).unwrap();
    assert_eq!(c.content, "{ \"app\": \"npx ts-node bin/my-cool-app.ts\" }");
}

#[test]
fn lint_config_choice() {
    let cat = sample_catalog();
    let eslint = config("d", Linter::EsLint, Formatter::NoFormatter, TestTool::NoTestTool);
    let f = generate_lint_config_file(&eslint, &cat).unwrap().unwrap();
    assert_eq!(f.file_path, "eslint.config.mjs");
    assert_eq!(f.content, "export default [];\n");
    let biome = config("d", Linter::Biome, Formatter::NoFormatter, TestTool::NoTestTool);
    let f2 = generate_lint_config_file(&biome, &cat).unwrap().unwrap();
    assert_eq!(f2.file_path, "biome.json");
    let none = config("d", Linter::NoLinter, Formatter::NoFormatter, TestTool::NoTestTool);
    assert!(generate_lint_config_file(&none, &cat).unwrap().is_none());
}

#[test]
fn test_config_choice() {
    let cat = sample_catalog();
    let jest = config("d", Linter::NoLinter, Formatter::NoFormatter, TestTool::Jest);
    let f = generate_test_config_file(&jest, &cat).unwrap().unwrap();
    assert_eq!(f.file_path, "jest.config.js");
    let vitest = config("d", Linter::NoLinter, Formatter::NoFormatter, TestTool::Vitest);
    let f2 = generate_test_config_file(&vitest, &cat).unwrap().unwrap();
    assert_eq!(f2.file_path, "vitest.config.mjs");
    let none = config("d", Linter::NoLinter, Formatter::NoFormatter, TestTool::NoTestTool);
    assert!(generate_test_config_file(&none, &cat).unwrap().is_none());
}

#[test]
fn formatter_config_choice() {
    let cat = sample_catalog();
    let prettier = config("d", Linter::NoLinter, Formatter::Prettier, TestTool::NoTestTool);
    let f = generate_formatter_config_file(&prettier, &cat).unwrap().unwrap();
    assert_eq!(f.file_path, ".prettierrc");
    let biome = config("d", Linter::NoLinter, Formatter::Biome, TestTool::NoTestTool);
    assert!(generate_formatter_config_file(&biome, &cat).unwrap().is_none());
    let none = config("d", Linter::NoLinter, Formatter::NoFormatter, TestTool::NoTestTool);
    assert!(generate_formatter_config_file(&none, &cat).unwrap().is_none());
}

#[test]
fn missing_required_template_fails_in_order() {
    let cat = TemplateCatalog::new();
    let cfg = config("demo", Linter::EsLint, Formatter::Prettier, TestTool::Jest);
    let err = generate_template_files(&cfg, &cat).unwrap_err();
    assert_eq!(err, TemplateError::TemplateMissing("tsconfig.json".to_string()));
}

#[test]
fn missing_manifest_template_reported_by_name() {
    let mut cat = TemplateCatalog::new();
    cat.add("tsconfig.json".to_string(), "{}".to_string());
    cat.add("README.md".to_string(), "# r".to_string());
    let cfg = config("demo", Linter::EsLint, Formatter::Prettier, TestTool::Jest);
    let err = generate_template_files(&cfg, &cat).unwrap_err();
    assert_eq!(err, TemplateError::TemplateMissing("package.json".to_string()));
}

#[test]
fn missing_optional_template_is_fatal_when_selected() {
    let cat = sample_catalog();
    let cfg = config("demo", Linter::EsLint, Formatter::Prettier, TestTool::Jest);
    let f = generate_lint_config_file(&cfg, &TemplateCatalog::new());
    assert_eq!(
        f.unwrap_err(),
        TemplateError::TemplateMissing("eslint.config.mjs".to_string())
    );
    // but a full catalog resolves the same configuration fine
    assert!(generate_template_files(&cfg, &cat).is_ok());
}

#[test]
fn catalog_lookup() {
    let mut cat = TemplateCatalog::new();
    cat.add("a".to_string(), "alpha".to_string());
    assert_eq!(cat.get_resource("a"), Some("alpha".to_string()));
    assert_eq!(cat.get_resource("b"), None);
}

#[test]
fn catalog_lookup_first_match_wins() {
    let mut cat = TemplateCatalog::new();
    cat.add("a".to_string(), "first".to_string());
    cat.add("a".to_string(), "second".to_string());
    assert_eq!(cat.get_resource("a"), Some("first".to_string()));
}

#[test]
fn generated_test_file_direct() {
    let cat = sample_catalog();
    let f = generate_test_file("my-app", "MyApp", &cat).unwrap();
    assert_eq!(f.file_path, "test/my-app.test.ts");
    assert_eq!(f.content, "import { MyAppStack } from '../lib/my-app-stack';\n");
}
