//! Terraform operations: the command lines run for init, plan, apply and
//! destroy, how exit codes are read, and the reading of plan output.
use vstd::prelude::*;
use vstd::string::StringSliceAdditionalSpecFns;
use crate::json::{get_spec, json_document, member_position, parse_json, JsonValue};
use crate::pipeline::strings_view;
use crate::strmap::StrMap;
use crate::text::{
    append_str, chars_of, find_char, find_char_exec, has_sub, lemma_find_char, has_sub_exec, lines_exec, lines_of, owned,
    slice_chars, split_whitespace_exec, split_ws, starts_with, starts_with_exec, string_of, trim_exec,
    trim_of,
};

verus! {

/// A resource change in a Terraform plan.
#[derive(Debug)]
pub struct ResourceChange {
    pub address: String,
    pub resource_type: String,
    pub name: String,
    pub action: String,
    pub before: Option<JsonValue>,
    pub after: Option<JsonValue>,
}

/// A parsed Terraform plan summary.
#[derive(Debug)]
pub struct PlanSummary {
    pub to_add: Vec<ResourceChange>,
    pub to_change: Vec<ResourceChange>,
    pub to_destroy: Vec<ResourceChange>,
}

/// What a successful `terraform plan` gives: whether there are changes,
/// the command's output, the saved plan file (only where there are
/// changes), the changes read from the output, and the plan as JSON where
/// `terraform show -json` gave it.
#[derive(Debug)]
pub struct PlanResult {
    pub has_changes: bool,
    pub output: String,
    pub plan_file: Option<String>,
    pub summary: PlanSummary,
    pub plan_json: Option<JsonValue>,
}

/// The output lines of a command, joined with newlines.
pub open spec fn joined_lines(lines: Seq<Seq<char>>) -> Seq<char>
    decreases lines.len(),
{
    if lines.len() == 0 {
        Seq::empty()
    } else if lines.len() == 1 {
        lines[0]
    } else {
        joined_lines(lines.drop_last()) + "\n"@ + lines.last()
    }
}

/// Joins output lines with newlines.
pub fn join_lines(lines: &Vec<String>) -> (r: String)
    ensures
        r@ == joined_lines(strings_view(lines@)),
{
    let ghost ls = strings_view(lines@);
    let mut out: Vec<char> = Vec::new();
    let mut i: usize = 0;
    while i < lines.len()
        invariant
            i <= lines.len(),
            ls == strings_view(lines@),
            out@ == joined_lines(ls.take(i as int)),
        decreases lines.len() - i,
    {
        assert(ls.take(i + 1).drop_last() =~= ls.take(i as int));
        assert(ls.take(i + 1).last() == lines@[i as int]@);
        if i > 0 {
            append_str(&mut out, "\n");
        } else {
            assert(ls.take(1) =~= seq![ls[0]]);
            assert(out@ =~= Seq::<char>::empty());
        }
        append_str(&mut out, lines[i].as_str());
        proof {
            if i == 0 {
                assert(out@ =~= ls.take(1)[0]);
            }
        }
        i = i + 1;
    }
    assert(ls.take(i as int) =~= ls);
    string_of(out.as_slice())
}

/// A resource change as text: address, type, name and action.
pub type ChangeText = (Seq<char>, Seq<char>, Seq<char>, Seq<char>);

pub open spec fn change_text(c: ResourceChange) -> ChangeText {
    (c.address@, c.resource_type@, c.name@, c.action@)
}

pub open spec fn changes_text(v: Seq<ResourceChange>) -> Seq<ChangeText> {
    v.map_values(|c: ResourceChange| change_text(c))
}

/// The action that a plan line announces.
pub open spec fn line_action(rest: Seq<char>) -> Option<Seq<char>> {
    if has_sub(rest, "will be created"@) {
        Some("create"@)
    } else if has_sub(rest, "will be updated"@) || has_sub(rest, "will be changed"@) {
        Some("update"@)
    } else if has_sub(rest, "will be destroyed"@) {
        Some("delete"@)
    } else {
        None
    }
}

/// The change that a line like `# aws_instance.web will be created`
/// announces: its address (first word), the type and name on either side of
/// the address's first `.`, and the action.
pub open spec fn resource_line(line: Seq<char>) -> Option<ChangeText> {
    if !starts_with(line, "# "@) {
        None
    } else {
        let rest = line.skip(2);
        let parts = split_ws(rest);
        if parts.len() < 4 {
            None
        } else {
            let address = parts[0];
            match line_action(rest) {
                None => None,
                Some(action) => match find_char(address, '.') {
                    Some(i) => Some((address, address.take(i), address.skip(i + 1), action)),
                    None => Some((address, address, Seq::empty(), action)),
                },
            }
        }
    }
}

/// A plan line `# <address> will be <verb> ...` (at least four words after
/// `# `) is read as a change of its first word: a line that says "will be
/// created" is an addition; otherwise one that says "will be updated" or
/// "will be changed" is a change; otherwise one that says "will be
/// destroyed" is a deletion; a line with none of these wordings is no change.
/// The type and name are the parts of the address before and after its first
/// `.` (the whole address and nothing where it has none).
pub proof fn lemma_plan_line_wording(line: Seq<char>)
    requires
        starts_with(line, "# "@),
        split_ws(line.skip(2)).len() >= 4,
    ensures
        ({
            let rest = line.skip(2);
            let created = has_sub(rest, "will be created"@);
            let updated = has_sub(rest, "will be updated"@) || has_sub(rest, "will be changed"@);
            let destroyed = has_sub(rest, "will be destroyed"@);
            let address = split_ws(rest)[0];
            &&& created ==> (resource_line(line) matches Some(c) && c.3 == "create"@)
            &&& !created && updated ==> (resource_line(line) matches Some(c) && c.3 == "update"@)
            &&& !created && !updated && destroyed ==> (resource_line(line) matches Some(c) && c.3 == "delete"@)
            &&& !created && !updated && !destroyed ==> resource_line(line) is None
            &&& resource_line(line) matches Some(c) ==> {
                &&& c.0 == address
                &&& address.contains('.') ==> c.1 + seq!['.'] + c.2 == address && !c.1.contains('.')
                &&& !address.contains('.') ==> c.1 == address && c.2.len() == 0
            }
        }),
{
    let address = split_ws(line.skip(2))[0];
    lemma_find_char(address, '.');
    match find_char(address, '.') {
        Some(i) => {
            assert(address.take(i) + seq!['.'] + address.skip(i + 1) =~= address);
            if address.take(i).contains('.') {
                let j = choose|j: int| 0 <= j < address.take(i).len() && address.take(i)[j] == '.';
                assert(address[j] == '.');
            }
            assert(address.contains('.')) by {
                assert(address[i] == '.');
            }
        },
        None => {},
    }
}

/// The changes with the given action that the lines of a plan output
/// announce, in order.
pub open spec fn plan_changes(lines: Seq<Seq<char>>, action: Seq<char>) -> Seq<ChangeText>
    decreases lines.len(),
{
    if lines.len() == 0 {
        Seq::empty()
    } else {
        let rest = plan_changes(lines.drop_last(), action);
        match resource_line(trim_of(lines.last())) {
            Some(c) => if c.3 == action {
                rest.push(c)
            } else {
                rest
            },
            None => rest,
        }
    }
}

/// The change with the given action that one plan line announces, read
/// after trimming the line.
pub open spec fn announced(l: Seq<char>, action: Seq<char>) -> Option<ChangeText> {
    match resource_line(trim_of(l)) {
        Some(c) => if c.3 == action {
            Some(c)
        } else {
            None
        },
        None => None,
    }
}

/// The changes with an action that a plan output lists are exactly those
/// that its lines announce with that action, one per line, in line order.
pub proof fn lemma_plan_changes_per_line(lines: Seq<Seq<char>>, action: Seq<char>)
    ensures
        plan_changes(lines, action) == lines.filter_map(|l: Seq<char>| announced(l, action)),
    decreases lines.len(),
{
    if lines.len() > 0 {
        lemma_plan_changes_per_line(lines.drop_last(), action);
        match announced(lines.last(), action) {
            Some(c) => {
                assert(plan_changes(lines.drop_last(), action).push(c) =~= lines.drop_last().filter_map(
                    |l: Seq<char>| announced(l, action),
                ) + seq![c]);
            },
            None => {},
        }
    }
}

/// Exit code of `terraform plan -detailed-exitcode`: 0 is success without
/// changes, 2 success with changes, anything else failure.
pub open spec fn plan_succeeded(code: Option<i32>) -> bool {
    code == Some(0i32) || code == Some(2i32)
}

pub fn plan_exit_outcome(code: Option<i32>) -> (r: (bool, bool))
    ensures
        r.0 == plan_succeeded(code),
        r.1 == (code == Some(2i32)),
{
    let has_changes = code == Some(2i32);
    let success = code == Some(0i32) || code == Some(2i32);
    (success, has_changes)
}

/// Terraform operation errors.
#[derive(Debug)]
pub enum TerraformError {
    Io(String),
    InitFailed(String),
    PlanFailed(String),
    ApplyFailed(String),
    DestroyFailed(String),
    ShowFailed(String),
    ParseFailed(String),
}

/// The text of a Terraform error.
pub open spec fn terraform_error_text(e: TerraformError) -> Seq<char> {
    match e {
        TerraformError::Io(m) => "IO error: "@ + m@,
        TerraformError::InitFailed(m) => "Terraform init failed: "@ + m@,
        TerraformError::PlanFailed(m) => "Terraform plan failed: "@ + m@,
        TerraformError::ApplyFailed(m) => "Terraform apply failed: "@ + m@,
        TerraformError::DestroyFailed(m) => "Terraform destroy failed: "@ + m@,
        TerraformError::ShowFailed(m) => "Terraform show failed: "@ + m@,
        TerraformError::ParseFailed(m) => "Failed to parse terraform output: "@ + m@,
    }
}

impl TerraformError {
    /// The error's message.
    pub fn message(&self) -> (r: String)
        ensures
            r@ == terraform_error_text(*self),
    {
        let (p, m) = match self {
            TerraformError::Io(m) => ("IO error: ", m),
            TerraformError::InitFailed(m) => ("Terraform init failed: ", m),
            TerraformError::PlanFailed(m) => ("Terraform plan failed: ", m),
            TerraformError::ApplyFailed(m) => ("Terraform apply failed: ", m),
            TerraformError::DestroyFailed(m) => ("Terraform destroy failed: ", m),
            TerraformError::ShowFailed(m) => ("Terraform show failed: ", m),
            TerraformError::ParseFailed(m) => ("Failed to parse terraform output: ", m),
        };
        let mut out = chars_of(p);
        append_str(&mut out, m.as_str());
        string_of(out.as_slice())
    }
}

/// What one entry of `terraform output -json` gives: its `value`, where the
/// entry reads as an output record. As a JSON object it needs `value` and
/// `type` members and a `sensitive` member, if any, that is a boolean or
/// null; as a JSON array it needs exactly those three items in that order.
pub open spec fn output_value(e: JsonValue) -> Option<JsonValue> {
    match e {
        JsonValue::Object(_) => match (get_spec(e, "value"@), get_spec(e, "type"@), get_spec(e, "sensitive"@)) {
            (Some(v), Some(_), s) => if s is None || s == Some(JsonValue::Null) || s matches Some(
                JsonValue::Bool(_),
            ) {
                Some(v)
            } else {
                None
            },
            _ => None,
        },
        JsonValue::Array(a) => if a.len() == 3 && (a@[2] is Null || a@[2] is Bool) {
            Some(a@[0])
        } else {
            None
        },
        _ => None,
    }
}

/// The outputs by name that a document gives: every member of an object
/// must read as an output record, else there are none; anything but an
/// object gives none.
pub open spec fn outputs_of(doc: Option<JsonValue>) -> Seq<(Seq<char>, JsonValue)> {
    match doc {
        Some(JsonValue::Object(ms)) => if forall|i: int| 0 <= i < ms.len() ==> #[trigger] output_value(ms@[i].1) is Some {
            Seq::new(ms.len() as nat, |i: int| (ms@[i].0@, output_value(ms@[i].1)->0))
        } else {
            Seq::empty()
        },
        _ => Seq::empty(),
    }
}

pub open spec fn outputs_view(v: Seq<(String, JsonValue)>) -> Seq<(Seq<char>, JsonValue)> {
    v.map_values(|p: (String, JsonValue)| (p.0@, p.1))
}

fn take_output(e: JsonValue) -> (r: Option<JsonValue>)
    ensures
        r == output_value(e),
{
    let ghost e0 = e;
    match e {
        JsonValue::Object(mut fields) => {
            let ty = member_position(&fields, "type");
            let sensitive_ok = match member_position(&fields, "sensitive") {
                Some(k) => matches!(fields[k].1, JsonValue::Null | JsonValue::Bool(_)),
                None => true,
            };
            match member_position(&fields, "value") {
                Some(vi) => {
                    if ty.is_some() && sensitive_ok {
                        let (_, v) = fields.remove(vi);
                        Some(v)
                    } else {
                        None
                    }
                },
                None => None,
            }
        },
        JsonValue::Array(mut items) => {
            if items.len() == 3 && matches!(items[2], JsonValue::Null | JsonValue::Bool(_)) {
                Some(items.remove(0))
            } else {
                None
            }
        },
        _ => None,
    }
}

/// The outputs by name that a text of `terraform output -json` gives.
fn outputs_from_text(text: &str) -> (r: Vec<(String, JsonValue)>)
    ensures
        outputs_view(r@) == outputs_of(json_document(text.spec_bytes())),
{
    let doc = match parse_json(text.as_bytes()) {
        Ok(d) => d,
        Err(_) => {
            return Vec::new();
        },
    };
    let ghost d0 = doc;
    let mut ms = match doc {
        JsonValue::Object(ms) => ms,
        _ => {
            return Vec::new();
        },
    };
    let ghost orig = ms;
    let ghost all = ms@;
    assert(d0 == JsonValue::Object(orig));
    let n = ms.len();
    let mut out: Vec<(String, JsonValue)> = Vec::new();
    let mut t: usize = 0;
    while t < n
        invariant
            n == all.len(),
            all == orig@,
            d0 == JsonValue::Object(orig),
            json_document(text.spec_bytes()) == Some(d0),
            t <= n,
            ms@ == all.skip(t as int),
            forall|i: int| 0 <= i < t ==> #[trigger] output_value(all[i].1) is Some,
            outputs_view(out@) == Seq::new(t as nat, |i: int| (all[i].0@, output_value(all[i].1)->0)),
        decreases n - t,
    {
        let ghost before = out@;
        assert(ms@[0] == all[t as int]);
        let (k, v) = ms.remove(0);
        assert(ms@ =~= all.skip(t + 1));
        assert(k@ == all[t as int].0@ && v == all[t as int].1);
        match take_output(v) {
            Some(x) => {
                out.push((k, x));
                assert(outputs_view(out@) =~= outputs_view(before).push((all[t as int].0@, x)));
                assert(outputs_view(out@) =~= Seq::new((t + 1) as nat, |i: int| (all[i].0@, output_value(all[i].1)->0)));
            },
            None => {
                assert(output_value(orig@[t as int].1) is None);
                assert(!(forall|i: int| 0 <= i < orig@.len() ==> #[trigger] output_value(orig@[i].1) is Some));
                assert(outputs_of(Some(d0)) == Seq::<(Seq<char>, JsonValue)>::empty());
                return Vec::new();
            },
        }
        t = t + 1;
    }
    assert(outputs_view(out@) =~= Seq::new(orig.len() as nat, |i: int| (orig@[i].0@, output_value(orig@[i].1)->0)));
    out
}

/// Runs Terraform through its command line.
#[derive(Debug)]
pub struct TerraformService {
    /// Path to the terraform binary.
    pub terraform_bin: String,
}

/// `prefix` followed by `key=value` for each entry, in order.
pub open spec fn kv_args(prefix: Seq<char>, m: StrMap) -> Seq<Seq<char>> {
    Seq::new(m.key_seq().len(), |i: int| prefix + m.key_seq()[i] + "="@ + m.value_seq()[i])
}

fn push_kv_args(args: &mut Vec<String>, prefix: &str, m: &StrMap)
    ensures
        strings_view(final(args)@) == strings_view(old(args)@) + kv_args(prefix@, *m),
{
    let ghost start = strings_view(args@);
    let n = m.len();
    let mut i: usize = 0;
    while i < n
        invariant
            i <= n,
            n == m.key_seq().len(),
            strings_view(args@) == start + kv_args(prefix@, *m).take(i as int),
        decreases n - i,
    {
        let (k, v) = m.entry_at(i);
        let mut e = chars_of(prefix);
        append_str(&mut e, k.as_str());
        append_str(&mut e, "=");
        append_str(&mut e, v.as_str());
        let ghost before = strings_view(args@);
        args.push(string_of(e.as_slice()));
        assert(strings_view(args@) =~= before.push(e@));
        assert(kv_args(prefix@, *m).take(i + 1) =~= kv_args(prefix@, *m).take(i as int).push(
            kv_args(prefix@, *m)[i as int],
        ));
        i = i + 1;
    }
    assert(kv_args(prefix@, *m).take(i as int) =~= kv_args(prefix@, *m));
}

fn push_str(args: &mut Vec<String>, s: &str)
    ensures
        strings_view(final(args)@) == strings_view(old(args)@).push(s@),
{
    let ghost before = strings_view(args@);
    args.push(owned(s));
    assert(strings_view(args@) =~= before.push(s@));
}

impl TerraformService {
    /// A service that runs the given terraform binary.
    pub fn with_binary(terraform_bin: String) -> (r: Self)
        ensures
            r.terraform_bin@ == terraform_bin@,
    {
        TerraformService { terraform_bin }
    }

    /// The service for the `TERRAFORM_BIN` setting: that binary, or
    /// `terraform` from the search path where it is unset.
    pub fn from_setting(terraform_bin: Option<String>) -> (r: Self)
        ensures
            r.terraform_bin@ == match terraform_bin {
                Some(b) => b@,
                None => "terraform"@,
            },
    {
        match terraform_bin {
            Some(b) => TerraformService { terraform_bin: b },
            None => TerraformService { terraform_bin: owned("terraform") },
        }
    }

    /// Arguments of `terraform init`, with one `-backend-config=k=v` per
    /// backend setting.
    pub fn init_args(&self, backend_config: &StrMap) -> (r: Vec<String>)
        ensures
            strings_view(r@) == seq!["init"@, "-input=false"@, "-no-color"@] + kv_args(
                "-backend-config="@,
                *backend_config,
            ),
    {
        let mut args: Vec<String> = Vec::new();
        push_str(&mut args, "init");
        push_str(&mut args, "-input=false");
        push_str(&mut args, "-no-color");
        assert(strings_view(args@) =~= seq!["init"@, "-input=false"@, "-no-color"@]);
        push_kv_args(&mut args, "-backend-config=", backend_config);
        args
    }

    /// Arguments of `terraform plan`: detailed exit codes, the plan saved
    /// to `plan_file`, one `-var=k=v` per variable, and the var file if any.
    pub fn plan_args(&self, plan_file: &str, variables: &StrMap, var_file: Option<&str>) -> (r: Vec<String>)
        ensures
            strings_view(r@) == seq![
                "plan"@,
                "-input=false"@,
                "-no-color"@,
                "-detailed-exitcode"@,
                "-out="@ + plan_file@,
            ] + kv_args("-var="@, *variables) + match var_file {
                Some(f) => seq!["-var-file="@ + f@],
                None => Seq::empty(),
            },
    {
        let mut args: Vec<String> = Vec::new();
        push_str(&mut args, "plan");
        push_str(&mut args, "-input=false");
        push_str(&mut args, "-no-color");
        push_str(&mut args, "-detailed-exitcode");
        let mut out = chars_of("-out=");
        append_str(&mut out, plan_file);
        let os = string_of(out.as_slice());
        push_str(&mut args, os.as_str());
        assert(strings_view(args@) =~= seq![
            "plan"@,
            "-input=false"@,
            "-no-color"@,
            "-detailed-exitcode"@,
            "-out="@ + plan_file@,
        ]);
        push_kv_args(&mut args, "-var=", variables);
        let ghost before = strings_view(args@);
        if let Some(f) = var_file {
            let mut vf = chars_of("-var-file=");
            append_str(&mut vf, f);
            args.push(string_of(vf.as_slice()));
            assert(strings_view(args@) =~= before.push(vf@));
        } else {
            assert(strings_view(args@) =~= before + Seq::<Seq<char>>::empty());
        }
        args
    }

    /// Arguments of `terraform apply` on a saved plan.
    pub fn apply_args(&self, plan_file: &str) -> (r: Vec<String>)
        ensures
            strings_view(r@) == seq![
                "apply"@,
                "-input=false"@,
                "-no-color"@,
                "-auto-approve"@,
                plan_file@,
            ],
    {
        let mut args: Vec<String> = Vec::new();
        push_str(&mut args, "apply");
        push_str(&mut args, "-input=false");
        push_str(&mut args, "-no-color");
        push_str(&mut args, "-auto-approve");
        push_str(&mut args, plan_file);
        assert(strings_view(args@) =~= seq![
            "apply"@,
            "-input=false"@,
            "-no-color"@,
            "-auto-approve"@,
            plan_file@,
        ]);
        args
    }

    /// Arguments of `terraform destroy`, with one `-var=k=v` per variable.
    pub fn destroy_args(&self, variables: &StrMap) -> (r: Vec<String>)
        ensures
            strings_view(r@) == seq!["destroy"@, "-input=false"@, "-no-color"@, "-auto-approve"@]
                + kv_args("-var="@, *variables),
    {
        let mut args: Vec<String> = Vec::new();
        push_str(&mut args, "destroy");
        push_str(&mut args, "-input=false");
        push_str(&mut args, "-no-color");
        push_str(&mut args, "-auto-approve");
        assert(strings_view(args@) =~= seq![
            "destroy"@,
            "-input=false"@,
            "-no-color"@,
            "-auto-approve"@,
        ]);
        push_kv_args(&mut args, "-var=", variables);
        args
    }

    /// Reads one resource change line of a plan output.
    pub fn parse_resource_line(&self, line: &str) -> (r: Option<ResourceChange>)
        ensures
            match r {
                Some(c) => resource_line(line@) == Some(change_text(c)) && c.before is None
                    && c.after is None,
                None => resource_line(line@) is None,
            },
    {
        let lc = chars_of(line);
        let pre = chars_of("# ");
        if !starts_with_exec(lc.as_slice(), pre.as_slice()) {
            return None;
        }
        proof {
            reveal_strlit("# ");
        }
        let rest = slice_chars(lc.as_slice(), 2, lc.len());
        assert(rest@ =~= line@.skip(2));
        let parts = split_whitespace_exec(rest.as_slice());
        if parts.len() < 4 {
            return None;
        }
        let address = &parts[0];
        assert(address@ == split_ws(rest@)[0]);
        let action = if has_sub_exec(rest.as_slice(), chars_of("will be created").as_slice()) {
            "create"
        } else if has_sub_exec(rest.as_slice(), chars_of("will be updated").as_slice())
            || has_sub_exec(rest.as_slice(), chars_of("will be changed").as_slice()) {
            "update"
        } else if has_sub_exec(rest.as_slice(), chars_of("will be destroyed").as_slice()) {
            "delete"
        } else {
            return None;
        };
        let (resource_type, name) = match find_char_exec(address.as_slice(), '.') {
            Some(i) => {
                proof {
                    lemma_find_char(address@, '.');
                }
                let t = slice_chars(address.as_slice(), 0, i);
                let n = slice_chars(address.as_slice(), i + 1, address.len());
                assert(t@ =~= address@.take(i as int));
                assert(n@ =~= address@.skip(i + 1));
                (string_of(t.as_slice()), string_of(n.as_slice()))
            },
            None => (string_of(address.as_slice()), String::new()),
        };
        Some(
            ResourceChange {
                address: string_of(address.as_slice()),
                resource_type,
                name,
                action: owned(action),
                before: None,
                after: None,
            },
        )
    }

    /// The result of `terraform init` from its exit code and its standard
    /// output and error: the two texts joined by a newline, as the output on
    /// success (exit code 0) and as the error otherwise.
    pub fn init_result(&self, code: Option<i32>, stdout: &str, stderr: &str) -> (r: Result<String, TerraformError>)
        ensures
            code == Some(0i32) ==> (r matches Ok(o) && o@ == stdout@ + "\n"@ + stderr@),
            code != Some(0i32) ==> (r matches Err(TerraformError::InitFailed(o)) && o@ == stdout@
                + "\n"@ + stderr@),
    {
        let mut out = chars_of(stdout);
        append_str(&mut out, "\n");
        append_str(&mut out, stderr);
        let combined = string_of(out.as_slice());
        if code == Some(0i32) {
            Ok(combined)
        } else {
            Err(TerraformError::InitFailed(combined))
        }
    }

    /// The result of `terraform plan -detailed-exitcode` from its exit code
    /// and output lines, for a plan saved to `plan_file`: a failure carries
    /// the output; a success says whether there are changes, keeps the plan
    /// file only where there are, and reads the changes from the output.
    pub fn plan_result(&self, code: Option<i32>, lines: &Vec<String>, plan_file: String) -> (r: Result<
        PlanResult,
        TerraformError,
    >)
        ensures
            !plan_succeeded(code) ==> (r matches Err(TerraformError::PlanFailed(o)) && o@
                == joined_lines(strings_view(lines@))),
            plan_succeeded(code) ==> (r matches Ok(p) && {
                &&& p.has_changes == (code == Some(2i32))
                &&& p.output@ == joined_lines(strings_view(lines@))
                &&& p.plan_file == (if code == Some(2i32) {
                    Some(plan_file)
                } else {
                    None
                })
                &&& changes_text(p.summary.to_add@) == plan_changes(lines_of(p.output@), "create"@)
                &&& changes_text(p.summary.to_change@) == plan_changes(lines_of(p.output@), "update"@)
                &&& changes_text(p.summary.to_destroy@) == plan_changes(lines_of(p.output@), "delete"@)
                &&& p.plan_json is None
            }),
    {
        let output = join_lines(lines);
        let (success, has_changes) = plan_exit_outcome(code);
        if !success {
            return Err(TerraformError::PlanFailed(output));
        }
        let summary = self.parse_plan_output(output.as_str());
        let kept = if has_changes {
            Some(plan_file)
        } else {
            None
        };
        Ok(PlanResult { has_changes, output, plan_file: kept, summary, plan_json: None })
    }

    /// The result of `terraform apply` from its exit code and output lines:
    /// the output on success (exit code 0), an apply failure otherwise.
    pub fn apply_result(&self, code: Option<i32>, lines: &Vec<String>) -> (r: Result<String, TerraformError>)
        ensures
            code == Some(0i32) ==> (r matches Ok(o) && o@ == joined_lines(strings_view(lines@))),
            code != Some(0i32) ==> (r matches Err(TerraformError::ApplyFailed(o)) && o@
                == joined_lines(strings_view(lines@))),
    {
        let output = join_lines(lines);
        if code == Some(0i32) {
            Ok(output)
        } else {
            Err(TerraformError::ApplyFailed(output))
        }
    }

    /// The result of `terraform destroy` from its exit code and output
    /// lines: the output on success (exit code 0), a destroy failure
    /// otherwise.
    pub fn destroy_result(&self, code: Option<i32>, lines: &Vec<String>) -> (r: Result<String, TerraformError>)
        ensures
            code == Some(0i32) ==> (r matches Ok(o) && o@ == joined_lines(strings_view(lines@))),
            code != Some(0i32) ==> (r matches Err(TerraformError::DestroyFailed(o)) && o@
                == joined_lines(strings_view(lines@))),
    {
        let output = join_lines(lines);
        if code == Some(0i32) {
            Ok(output)
        } else {
            Err(TerraformError::DestroyFailed(output))
        }
    }

    /// The plan as JSON from `terraform show -json`'s exit code and its
    /// output (as text) and error text: the error text where the command
    /// failed, else the JSON document the output spells, or a parse failure
    /// carrying the parser's account.
    pub fn read_plan_json(&self, code: Option<i32>, stdout: &str, stderr: &str) -> (r: Result<JsonValue, TerraformError>)
        ensures
            code != Some(0i32) ==> (r matches Err(TerraformError::ShowFailed(m)) && m@ == stderr@),
            code == Some(0i32) ==> match json_document(stdout.spec_bytes()) {
                Some(v) => r == Ok::<JsonValue, TerraformError>(v),
                None => r matches Err(TerraformError::ParseFailed(_)),
            },
    {
        if code != Some(0i32) {
            return Err(TerraformError::ShowFailed(owned(stderr)));
        }
        match parse_json(stdout.as_bytes()) {
            Ok(v) => Ok(v),
            Err(e) => Err(TerraformError::ParseFailed(e)),
        }
    }

    /// The outputs of `terraform output -json` by name, from its exit code
    /// and output text: none where the command failed or the text is not a
    /// map of output records.
    pub fn outputs_result(&self, code: Option<i32>, stdout: &str) -> (r: Vec<(String, JsonValue)>)
        ensures
            code != Some(0i32) ==> r.len() == 0,
            code == Some(0i32) ==> outputs_view(r@) == outputs_of(json_document(stdout.spec_bytes())),
    {
        if code != Some(0i32) {
            return Vec::new();
        }
        outputs_from_text(stdout)
    }

    /// Reads the resource changes that a plan output announces, sorted into
    /// additions, changes and deletions.
    pub fn parse_plan_output(&self, output: &str) -> (s: PlanSummary)
        ensures
            changes_text(s.to_add@) == plan_changes(lines_of(output@), "create"@),
            changes_text(s.to_change@) == plan_changes(lines_of(output@), "update"@),
            changes_text(s.to_destroy@) == plan_changes(lines_of(output@), "delete"@),
    {
        let oc = chars_of(output);
        let lines = lines_exec(oc.as_slice());
        let ghost ls = lines@.map_values(|v: Vec<char>| v@);
        assert(ls == lines_of(output@));
        let mut to_add: Vec<ResourceChange> = Vec::new();
        let mut to_change: Vec<ResourceChange> = Vec::new();
        let mut to_destroy: Vec<ResourceChange> = Vec::new();
        let mut i: usize = 0;
        while i < lines.len()
            invariant
                i <= lines.len(),
                ls == lines@.map_values(|v: Vec<char>| v@),
                changes_text(to_add@) == plan_changes(ls.take(i as int), "create"@),
                changes_text(to_change@) == plan_changes(ls.take(i as int), "update"@),
                changes_text(to_destroy@) == plan_changes(ls.take(i as int), "delete"@),
            decreases lines.len() - i,
        {
            assert(ls.take(i + 1).drop_last() =~= ls.take(i as int));
            assert(ls.take(i + 1).last() == lines@[i as int]@);
            let t = trim_exec(lines[i].as_slice());
            let ts = string_of(t.as_slice());
            let pre = chars_of("# ");
            if starts_with_exec(t.as_slice(), pre.as_slice()) {
                if let Some(rc) = self.parse_resource_line(ts.as_str()) {
                    proof {
                        reveal_strlit("create");
                        reveal_strlit("update");
                        reveal_strlit("delete");
                        assert("create"@[0] != "update"@[0]);
                        assert("create"@[0] != "delete"@[0]);
                        assert("create"@ != "update"@);
                        assert("create"@ != "delete"@);
                        assert("update"@ != "delete"@);
                    }
                    let a = chars_of(rc.action.as_str());
                    if crate::text::eq_str(a.as_slice(), "create") {
                        let ghost before = to_add@;
                        to_add.push(rc);
                        assert(changes_text(to_add@) =~= changes_text(before).push(change_text(rc)));
                    } else if crate::text::eq_str(a.as_slice(), "update") {
                        let ghost before = to_change@;
                        to_change.push(rc);
                        assert(changes_text(to_change@) =~= changes_text(before).push(change_text(rc)));
                    } else if crate::text::eq_str(a.as_slice(), "delete") {
                        let ghost before = to_destroy@;
                        to_destroy.push(rc);
                        assert(changes_text(to_destroy@) =~= changes_text(before).push(change_text(rc)));
                    }
                }
            }
            i = i + 1;
        }
        assert(ls.take(i as int) =~= ls);
        PlanSummary { to_add, to_change, to_destroy }
    }
}

} // verus!
