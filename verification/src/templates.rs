use vstd::prelude::*;

use crate::index_query::{opt_str_view, str_views};
use crate::text::{
    ascii_lower_seq, chars_of, eq_ignore_ascii_case, push_all, push_str, string_of,
};

verus! {

/// What to generate command lines for.
pub struct CliGenerateInput {
    pub tool: Option<String>,
    pub connection_id: String,
    pub connection_name: Option<String>,
    pub endpoint: Option<String>,
    pub bucket: String,
    pub prefix: Option<String>,
    pub keys: Vec<String>,
}

/// The mathematical value of a [`CliGenerateInput`].
#[verifier::ext_equal]
pub struct CliInputView {
    pub tool: Option<Seq<char>>,
    pub connection_id: Seq<char>,
    pub connection_name: Option<Seq<char>>,
    pub endpoint: Option<Seq<char>>,
    pub bucket: Seq<char>,
    pub prefix: Option<Seq<char>>,
    pub keys: Seq<Seq<char>>,
}

impl View for CliGenerateInput {
    type V = CliInputView;

    open spec fn view(&self) -> CliInputView {
        CliInputView {
            tool: opt_str_view(self.tool),
            connection_id: self.connection_id@,
            connection_name: opt_str_view(self.connection_name),
            endpoint: opt_str_view(self.endpoint),
            bucket: self.bucket@,
            prefix: opt_str_view(self.prefix),
            keys: str_views(self.keys@),
        }
    }
}

/// A ready-to-paste command line for an outside tool.
pub struct CliCommandSuggestion {
    pub tool: String,
    pub command: String,
    pub description: String,
}

/// A suggestion as `(tool, command, description)`.
pub open spec fn sugg_view(s: CliCommandSuggestion) -> (Seq<char>, Seq<char>, Seq<char>) {
    (s.tool@, s.command@, s.description@)
}

pub open spec fn sugg_views(v: Seq<CliCommandSuggestion>) -> Seq<(Seq<char>, Seq<char>, Seq<char>)> {
    Seq::new(v.len(), |i: int| sugg_view(v[i]))
}

pub open spec fn or_empty(o: Option<Seq<char>>) -> Seq<char> {
    match o {
        Some(s) => s,
        None => Seq::empty(),
    }
}

/// The `--endpoint-url` flag for a custom endpoint.
pub open spec fn endpoint_flag(e: Option<Seq<char>>) -> Seq<char> {
    match e {
        Some(e) => " --endpoint-url "@ + e,
        None => Seq::empty(),
    }
}

/// `s3://bucket/prefix` (the prefix may be empty).
pub open spec fn s3_uri(bucket: Seq<char>, prefix: Seq<char>) -> Seq<char> {
    "s3://"@ + bucket + "/"@ + prefix
}

pub open spec fn aws_cp(bucket: Seq<char>, key: Seq<char>, flag: Seq<char>) -> Seq<char> {
    "aws s3 cp "@ + s3_uri(bucket, key) + " ."@ + flag
}

/// The AWS CLI commands for an input.
pub open spec fn aws_spec(input: CliInputView) -> Seq<(Seq<char>, Seq<char>, Seq<char>)> {
    let flag = endpoint_flag(input.endpoint);
    let b = input.bucket;
    let keys = input.keys;
    if keys.len() == 0 {
        let uri = s3_uri(b, or_empty(input.prefix));
        seq![
            ("aws"@, "aws s3 ls "@ + uri + flag, "List objects under the current prefix"@),
            ("aws"@, "aws s3 sync "@ + uri + " ./local-copy"@ + flag, "Sync prefix to a local folder"@),
        ]
    } else if keys.len() == 1 {
        seq![("aws"@, aws_cp(b, keys[0], flag), "Download a single object"@)]
    } else {
        Seq::new(
            keys.len(),
            |i: int| ("aws"@, aws_cp(b, keys[i], flag), "Download `"@ + keys[i] + "`"@),
        )
    }
}

/// `name` with every character that is not an ASCII letter or digit made `-`.
pub open spec fn remote_name(name: Seq<char>) -> Seq<char> {
    Seq::new(
        name.len(),
        |i: int|
            if ('0' <= name[i] && name[i] <= '9') || ('a' <= name[i] && name[i] <= 'z') || ('A'
                <= name[i] && name[i] <= 'Z') {
                name[i]
            } else {
                '-'
            },
    )
}

/// The rclone commands for an input.
pub open spec fn rclone_spec(input: CliInputView) -> Seq<(Seq<char>, Seq<char>, Seq<char>)> {
    let remote = remote_name(
        match input.connection_name {
            Some(n) => n,
            None => "paker-remote"@,
        },
    );
    let b = input.bucket;
    let keys = input.keys;
    if keys.len() == 0 {
        let path = remote + ":"@ + b + "/"@ + or_empty(input.prefix);
        seq![
            ("rclone"@, "rclone ls "@ + path, "List objects (requires rclone remote configured)"@),
            ("rclone"@, "rclone sync "@ + path + " ./local-copy"@, "Sync prefix to local directory"@),
        ]
    } else {
        Seq::new(
            keys.len(),
            |i: int|
                (
                    "rclone"@,
                    "rclone copy "@ + remote + ":"@ + b + "/"@ + keys[i] + " ."@,
                    "Copy `"@ + keys[i] + "` locally"@,
                ),
        )
    }
}

/// Whether the requested tool (none means every tool) is `name`, ignoring
/// ASCII case.
pub open spec fn wants(tool: Option<Seq<char>>, name: Seq<char>) -> bool {
    match tool {
        None => true,
        Some(t) => ascii_lower_seq(t) == ascii_lower_seq(name),
    }
}

/// All suggestions for an input: AWS CLI first, then rclone.
pub open spec fn cli_spec(input: CliInputView) -> Seq<(Seq<char>, Seq<char>, Seq<char>)> {
    let t = input.tool;
    (if wants(t, "aws"@) {
        aws_spec(input)
    } else {
        Seq::empty()
    }) + (if wants(t, "rclone"@) {
        rclone_spec(input)
    } else {
        Seq::empty()
    })
}

fn suggestion(tool: &str, command: Vec<char>, description: Vec<char>) -> (r: CliCommandSuggestion)
    ensures
        sugg_view(r) == (tool@, command@, description@),
{
    CliCommandSuggestion {
        tool: string_of(&chars_of(tool)),
        command: string_of(&command),
        description: string_of(&description),
    }
}

fn text(a: &str) -> (r: Vec<char>)
    ensures
        r@ == a@,
{
    chars_of(a)
}

/// AWS CLI commands that list, sync or download what the input names.
pub fn generate_aws_cli(input: &CliGenerateInput) -> (r: Vec<CliCommandSuggestion>)
    ensures
        sugg_views(r@) == aws_spec(input@),
{
    let mut flag: Vec<char> = Vec::new();
    match &input.endpoint {
        Some(e) => {
            push_str(&mut flag, " --endpoint-url ");
            push_str(&mut flag, e.as_str());
        },
        None => {},
    }
    assert(flag@ =~= endpoint_flag(opt_str_view(input.endpoint)));
    let bucket = chars_of(input.bucket.as_str());
    let mut out: Vec<CliCommandSuggestion> = Vec::new();
    if input.keys.len() == 0 {
        let mut uri = text("s3://");
        push_all(&mut uri, &bucket);
        push_str(&mut uri, "/");
        match &input.prefix {
            Some(p) => push_str(&mut uri, p.as_str()),
            None => {},
        }
        assert(uri@ =~= s3_uri(input.bucket@, or_empty(opt_str_view(input.prefix))));
        let mut ls = text("aws s3 ls ");
        push_all(&mut ls, &uri);
        push_all(&mut ls, &flag);
        let mut sync = text("aws s3 sync ");
        push_all(&mut sync, &uri);
        push_str(&mut sync, " ./local-copy");
        push_all(&mut sync, &flag);
        out.push(suggestion("aws", ls, text("List objects under the current prefix")));
        out.push(suggestion("aws", sync, text("Sync prefix to a local folder")));
        assert(sugg_views(out@) =~= aws_spec(input@));
        return out;
    }
    let single = input.keys.len() == 1;
    let mut i: usize = 0;
    while i < input.keys.len()
        invariant
            i <= input.keys.len(),
            single == (input.keys.len() == 1),
            flag@ == endpoint_flag(opt_str_view(input.endpoint)),
            bucket@ == input.bucket@,
            sugg_views(out@) =~= aws_spec(input@).subrange(0, i as int),
        decreases input.keys.len() - i,
    {
        let key = chars_of(input.keys[i].as_str());
        assert(key@ == str_views(input.keys@)[i as int]);
        let mut cmd = text("aws s3 cp ");
        push_str(&mut cmd, "s3://");
        push_all(&mut cmd, &bucket);
        push_str(&mut cmd, "/");
        push_all(&mut cmd, &key);
        push_str(&mut cmd, " .");
        push_all(&mut cmd, &flag);
        assert(cmd@ =~= aws_cp(input.bucket@, key@, flag@));
        let desc = if single {
            text("Download a single object")
        } else {
            let mut d = text("Download `");
            push_all(&mut d, &key);
            push_str(&mut d, "`");
            d
        };
        let ghost before = sugg_views(out@);
        out.push(suggestion("aws", cmd, desc));
        assert(sugg_views(out@) =~= before.push(aws_spec(input@)[i as int]));
        i += 1;
    }
    assert(aws_spec(input@).subrange(0, input.keys.len() as int) =~= aws_spec(input@));
    out
}

/// `name` with every character that is not an ASCII letter or digit made `-`.
pub fn sanitize_remote_name(name: &str) -> (r: String)
    ensures
        r@ == remote_name(name@),
{
    let v = chars_of(name);
    let mut out: Vec<char> = Vec::new();
    let mut i: usize = 0;
    while i < v.len()
        invariant
            i <= v.len(),
            v@ == name@,
            out@ =~= remote_name(name@).subrange(0, i as int),
        decreases v.len() - i,
    {
        let c = v[i];
        if ('0' <= c && c <= '9') || ('a' <= c && c <= 'z') || ('A' <= c && c <= 'Z') {
            out.push(c);
        } else {
            out.push('-');
        }
        i += 1;
    }
    string_of(&out)
}

/// rclone commands that list, sync or copy what the input names.
pub fn generate_rclone(input: &CliGenerateInput) -> (r: Vec<CliCommandSuggestion>)
    ensures
        sugg_views(r@) == rclone_spec(input@),
{
    let remote_s = match &input.connection_name {
        Some(n) => sanitize_remote_name(n.as_str()),
        None => sanitize_remote_name("paker-remote"),
    };
    let remote = chars_of(remote_s.as_str());
    let bucket = chars_of(input.bucket.as_str());
    let mut out: Vec<CliCommandSuggestion> = Vec::new();
    if input.keys.len() == 0 {
        let mut path = remote;
        push_str(&mut path, ":");
        push_all(&mut path, &bucket);
        push_str(&mut path, "/");
        match &input.prefix {
            Some(p) => push_str(&mut path, p.as_str()),
            None => {},
        }
        let mut ls = text("rclone ls ");
        push_all(&mut ls, &path);
        let mut sync = text("rclone sync ");
        push_all(&mut sync, &path);
        push_str(&mut sync, " ./local-copy");
        out.push(
            suggestion("rclone", ls, text("List objects (requires rclone remote configured)")),
        );
        out.push(suggestion("rclone", sync, text("Sync prefix to local directory")));
        assert(sugg_views(out@) =~= rclone_spec(input@));
        return out;
    }
    let mut i: usize = 0;
    while i < input.keys.len()
        invariant
            i <= input.keys.len(),
            remote@ == remote_name(
                match opt_str_view(input.connection_name) {
                    Some(n) => n,
                    None => "paker-remote"@,
                },
            ),
            bucket@ == input.bucket@,
            sugg_views(out@) =~= rclone_spec(input@).subrange(0, i as int),
        decreases input.keys.len() - i,
    {
        let key = chars_of(input.keys[i].as_str());
        assert(key@ == str_views(input.keys@)[i as int]);
        let mut cmd = text("rclone copy ");
        push_all(&mut cmd, &remote);
        push_str(&mut cmd, ":");
        push_all(&mut cmd, &bucket);
        push_str(&mut cmd, "/");
        push_all(&mut cmd, &key);
        push_str(&mut cmd, " .");
        let mut desc = text("Copy `");
        push_all(&mut desc, &key);
        push_str(&mut desc, "` locally");
        let ghost before = sugg_views(out@);
        out.push(suggestion("rclone", cmd, desc));
        assert(sugg_views(out@) =~= before.push(rclone_spec(input@)[i as int]));
        i += 1;
    }
    assert(rclone_spec(input@).subrange(0, input.keys.len() as int) =~= rclone_spec(input@));
    out
}

fn wants_tool(tool: &Option<String>, name: &str) -> (b: bool)
    ensures
        b == wants(opt_str_view(*tool), name@),
{
    match tool {
        None => true,
        Some(t) => eq_ignore_ascii_case(&chars_of(t.as_str()), &chars_of(name)),
    }
}

/// The suggestions for the requested tool (AWS CLI, rclone, or both when
/// none is named), AWS CLI first.
pub fn generate_cli_commands(input: &CliGenerateInput) -> (r: Vec<CliCommandSuggestion>)
    ensures
        sugg_views(r@) == cli_spec(input@),
{
    let mut out: Vec<CliCommandSuggestion> = Vec::new();
    let want_aws = wants_tool(&input.tool, "aws");
    let want_rclone = wants_tool(&input.tool, "rclone");
    if want_aws {
        let a = generate_aws_cli(input);
        out = a;
    }
    let ghost first = sugg_views(out@);
    if want_rclone {
        let mut b = generate_rclone(input);
        let ghost bv = sugg_views(b@);
        out.append(&mut b);
        assert(sugg_views(out@) =~= first + bv);
    }
    assert(sugg_views(out@) =~= cli_spec(input@));
    out
}

/// A character rclone takes in a remote's name as written here.
pub open spec fn remote_char(c: char) -> bool {
    ('0' <= c && c <= '9') || ('a' <= c && c <= 'z') || ('A' <= c && c <= 'Z') || c == '-'
}

/// Text that names an rclone remote here: letters, digits and `-` only.
pub open spec fn remote_text(r: Seq<char>) -> bool {
    forall|i: int| 0 <= i < r.len() ==> remote_char(#[trigger] r[i])
}

/// The rclone sync suggestion for a prefix downloads: it syncs from the very
/// path the listing suggestion lists (a remote name, `:`, the bucket, `/`
/// and the prefix) into `./local-copy`, never the other way round.
pub proof fn law_rclone_sync_pulls_the_listed_path(input: CliInputView)
    requires
        input.keys.len() == 0,
    ensures
        rclone_spec(input).len() == 2,
        exists|remote: Seq<char>|
            {
                let p = remote + ":"@ + input.bucket + "/"@ + or_empty(input.prefix);
                &&& #[trigger] remote_text(remote)
                &&& rclone_spec(input)[0].1 == "rclone ls "@ + p
                &&& rclone_spec(input)[1].1 == "rclone sync "@ + p + " ./local-copy"@
            },
{
    let remote = remote_name(
        match input.connection_name {
            Some(n) => n,
            None => "paker-remote"@,
        },
    );
    assert(remote_text(remote));
}

/// The AWS CLI sync suggestion for a prefix downloads too: it syncs from
/// the very `s3://` location the listing suggestion lists into
/// `./local-copy`, with the same endpoint flag.
pub proof fn law_aws_sync_pulls_the_listed_location(input: CliInputView)
    requires
        input.keys.len() == 0,
    ensures
        aws_spec(input).len() == 2,
        exists|uri: Seq<char>, flag: Seq<char>|
            {
                &&& #[trigger] s3_uri(input.bucket, or_empty(input.prefix)) == uri
                &&& endpoint_flag(input.endpoint) == flag
                &&& aws_spec(input)[0].1 == "aws s3 ls "@ + uri + flag
                &&& aws_spec(input)[1].1 == "aws s3 sync "@ + uri + " ./local-copy"@ + flag
            },
{
    let uri = s3_uri(input.bucket, or_empty(input.prefix));
    let flag = endpoint_flag(input.endpoint);
    assert(aws_spec(input)[1].1 == "aws s3 sync "@ + uri + " ./local-copy"@ + flag);
}

/// Suggestions for selected keys download each key, in order, from its own
/// location into the current folder: the AWS CLI copies `s3://bucket/key`
/// to `.`, and rclone copies `remote:bucket/key` to `.`.
pub proof fn law_key_suggestions_download_each_key(input: CliInputView)
    requires
        input.keys.len() > 0,
    ensures
        aws_spec(input).len() == input.keys.len(),
        rclone_spec(input).len() == input.keys.len(),
        forall|i: int|
            0 <= i < input.keys.len() ==> #[trigger] aws_spec(input)[i].1 == "aws s3 cp "@ + s3_uri(
                input.bucket,
                input.keys[i],
            ) + " ."@ + endpoint_flag(input.endpoint),
        exists|remote: Seq<char>|
            #[trigger] remote_text(remote) && forall|i: int|
                0 <= i < input.keys.len() ==> #[trigger] rclone_spec(input)[i].1 == "rclone copy "@
                    + remote + ":"@ + input.bucket + "/"@ + input.keys[i] + " ."@,
{
    let remote = remote_name(
        match input.connection_name {
            Some(n) => n,
            None => "paker-remote"@,
        },
    );
    assert(remote_text(remote));
}

} // verus!
