use odoo_mcp::sources::{
    find_model_source, git_command, git_failure, git_launch_failure, grep_output_files,
    is_model_definition, model_grep_args, sources_to_update_on_serve, update_all, update_source,
    SourceConfig, SourceError,
};

fn src(path: &str) -> SourceConfig {
    SourceConfig {
        path: path.to_string(),
        origin: None,
        branch: None,
        ssh_key: None,
        token: None,
        update_on_serve: false,
    }
}

fn strings(v: &[&str]) -> Vec<String> {
    v.iter().map(|s| s.to_string()).collect()
}

#[test]
fn pull_plan_for_existing_tree() {
    let mut s = src("/opt/addons");
    s.branch = Some("16.0".to_string());
    let plan = update_source(&s, true).unwrap();
    assert_eq!(plan.steps.len(), 3);
    assert_eq!(plan.steps[0].command.args, strings(&["fetch", "origin"]));
    assert_eq!(plan.steps[0].command.work_dir, Some("/opt/addons".to_string()));
    assert_eq!(plan.steps[0].context, "git fetch failed");
    assert_eq!(plan.steps[1].command.args, strings(&["checkout", "16.0"]));
    assert_eq!(plan.steps[1].context, "git checkout failed");
    assert_eq!(plan.steps[2].command.args, strings(&["reset", "--hard", "origin/16.0"]));
    assert_eq!(plan.steps[2].context, "git reset failed");
    assert_eq!(plan.done, "/opt/addons (reset to origin/16.0)");
}

#[test]
fn clone_plan_defaults_to_main() {
    let mut s = src("/opt/new");
    s.origin = Some("git@github.com:org/addons.git".to_string());
    let plan = update_source(&s, false).unwrap();
    assert_eq!(plan.steps.len(), 1);
    assert_eq!(plan.steps[0].command.work_dir, None);
    assert_eq!(
        plan.steps[0].command.args,
        strings(&["clone", "--single-branch", "--branch", "main", "git@github.com:org/addons.git", "/opt/new"])
    );
    assert_eq!(plan.steps[0].context, "git clone failed");
    assert_eq!(plan.done, "Cloned git@github.com:org/addons.git → /opt/new");
}

#[test]
fn no_repository_no_origin() {
    let e = update_source(&src("/nowhere"), false).unwrap_err();
    assert_eq!(e, SourceError::NotARepository { path: "/nowhere".to_string() });
    assert_eq!(e.message(), "/nowhere: not a git repo and no origin configured");
}

#[test]
fn token_and_ssh_key() {
    let mut s = src("/p");
    s.token = Some("ghp_x".to_string());
    s.ssh_key = Some("/home/u/.ssh/id".to_string());
    let cmd = git_command(Some("/p"), &strings(&["fetch", "origin"]), &s);
    assert_eq!(
        cmd.args,
        strings(&["-c", "http.extraHeader=Authorization: Bearer ghp_x", "fetch", "origin"])
    );
    assert_eq!(cmd.subcommand, strings(&["fetch", "origin"]));
    assert_eq!(
        cmd.ssh_command,
        Some("ssh -i /home/u/.ssh/id -o StrictHostKeyChecking=no -o BatchMode=yes".to_string())
    );
    assert_eq!(git_failure(&strings(&["fetch", "origin"]), "  fatal: no\n"), "git fetch origin failed:\nfatal: no");
    assert_eq!(git_launch_failure(&strings(&["clone", "x"])), "Failed to run: git clone x");
}

#[test]
fn update_all_keeps_order() {
    let mut a = src("/a");
    a.origin = Some("o".to_string());
    let b = src("/b");
    let results = update_all(&vec![a, b], &vec![false, false]);
    assert_eq!(results.len(), 2);
    assert_eq!(results[0].0, "/a");
    assert!(results[0].1.is_ok());
    assert_eq!(results[1].0, "/b");
    assert!(results[1].1.is_err());
}

#[test]
fn serve_updates_only_marked_sources() {
    let mut a = src("/a");
    a.update_on_serve = true;
    let b = src("/b");
    let mut c = src("/c");
    c.update_on_serve = true;
    let chosen = sources_to_update_on_serve(&vec![a, b, c]);
    let paths: Vec<&str> = chosen.iter().map(|s| s.path.as_str()).collect();
    assert_eq!(paths, vec!["/a", "/c"]);
}

#[test]
fn grep_arguments() {
    let e = model_grep_args("res.partner", &Vec::new()).unwrap_err();
    assert_eq!(e.message(), "No sources configured for this profile. Add `sources:` to config.yaml.");
    let args = model_grep_args("res.partner", &vec![src("/a"), src("/b")]).unwrap();
    assert_eq!(
        args,
        strings(&["-rl", "--include=*.py", "-e", "\"res.partner\"", "-e", "'res.partner'", "/a", "/b"])
    );
}

#[test]
fn grep_output_lines() {
    let out = "a.py\r\nb.py\n\nc.py";
    assert_eq!(grep_output_files(out), strings(&["a.py", "b.py", "c.py"]));
    let expected: Vec<String> = out.lines().filter(|l| !l.is_empty()).map(|l| l.to_string()).collect();
    assert_eq!(grep_output_files(out), expected);
    assert!(grep_output_files("").is_empty());
    assert_eq!(grep_output_files("x\r"), strings(&["x\r"]));
}

#[test]
fn model_definition_detection() {
    let model = "sale.order";
    assert!(is_model_definition("class S(models.Model):\n    _name = \"sale.order\"\n", model));
    assert!(is_model_definition("class S(models.TransientModel):\n    _name = 'sale.order'\n", model));
    assert!(is_model_definition("class S(models.AbstractModel):\n    _inherit = 'sale.order'\n", model));
    assert!(is_model_definition(
        "class S(models.Model):\n    _inherit = ['mail.thread', \"sale.order\"]\n",
        model
    ));
    // mentions the model but does not define a model class
    assert!(!is_model_definition("_name = \"sale.order\"\n", model));
    // a model class that only mentions the name elsewhere
    assert!(!is_model_definition("class S(models.Model):\n    x = 'sale.order'\n", model));
    // inheriting another model and naming this one in a field does not count
    assert!(!is_model_definition(
        "class Order(models.Model):\n    _inherit = 'mail.thread'\n    partner_id = fields.Many2one('res.partner')\n",
        "res.partner"
    ));
    assert!(!is_model_definition(
        "class Order(models.Model):\n    _inherit = ['mail.thread']\n    partner_id = fields.Many2one('res.partner')\n",
        "res.partner"
    ));
    // the list value runs to its closing bracket, even over several lines
    assert!(is_model_definition(
        "class P(models.Model):\n    _inherit = [\n        'mail.thread',\n        'res.partner',\n    ]\n",
        "res.partner"
    ));
}

#[test]
fn model_source_assembly() {
    let model = "sale.order";
    let def = "class S(models.Model):\n    _name = 'sale.order'\n";
    let other = "x = 'sale.order'\n";
    let files = vec![
        ("a.py".to_string(), def.to_string()),
        ("b.py".to_string(), other.to_string()),
        ("c.py".to_string(), def.to_string()),
    ];
    let out = find_model_source(model, &files).unwrap();
    let expected = format!("# a.py\n\n{def}\n\n# {}\n# c.py\n\n{def}", "─".repeat(72));
    assert_eq!(out, expected);

    let one = find_model_source(model, &files[..1].to_vec()).unwrap();
    assert_eq!(one, format!("# a.py\n\n{def}"));

    let e = find_model_source(model, &Vec::new()).unwrap_err();
    assert_eq!(e.message(), "No Python files found referencing model 'sale.order'");
    let e = find_model_source(model, &vec![("b.py".to_string(), other.to_string())]).unwrap_err();
    assert_eq!(
        e.message(),
        "No Odoo model class found for 'sale.order' (files matched but none define/inherit it)"
    );
}
