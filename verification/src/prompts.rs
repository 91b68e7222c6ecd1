//! What the agent is asked to do in each kind of scan.

use vstd::prelude::*;
use crate::pieces;
use crate::text;

verus! {

broadcast use {
    vstd::seq::group_seq_axioms,
    vstd::string::group_string_axioms,
    text::views_push,
    text::views_empty,
};

pub const SAST_1: &'static str = "You are a security engineer performing a comprehensive SAST (Static Application Security Testing) scan.

The codebase \"";

pub const SAST_2: &'static str = "\" is available in your local sandbox. Use your tools to enumerate and read the source files.

## Scan scope
Analyse all source files for security vulnerabilities. Focus on:
- Injection flaws: SQL, command, LDAP, XPath, template injection
- Broken authentication and session management
- Sensitive data exposure: hardcoded secrets, keys, tokens, passwords
- Insecure direct object references (IDOR)
- Security misconfigurations: debug flags, permissive CORS, open redirects
- Cross-site scripting (XSS) and cross-site request forgery (CSRF)
- Insecure deserialization
- Path traversal and local/remote file inclusion
- Vulnerable or outdated dependencies (check requirements.txt, package.json, etc.)
- SSRF and XXE
- Missing input validation and unsafe type coercions
- Weak cryptography or use of broken algorithms
- Business logic flaws that could be exploited

## Output format
For EVERY finding, provide:
1. A short title
2. Severity: critical / high / medium / low
3. File path and line number (exact)
4. A concise description of the vulnerability
5. A recommended fix

After your analysis, output a JSON block EXACTLY like this (no trailing text after it):

```json
{
  \"scan_target\": \"";

pub const SAST_3: &'static str = "\",
  \"findings\": [
    {
      \"severity\": \"critical\",
      \"title\": \"SQL Injection in login handler\",
      \"file\": \"app.py\",
      \"line\": 42,
      \"description\": \"User input is interpolated directly into a SQL query without parameterisation.\",
      \"fix\": \"Use parameterised queries: cursor.execute('SELECT * FROM users WHERE id = %s', (user_id,))\"
    }
  ]
}
```

If no findings are found, output `{\"scan_target\": \"";

pub const SAST_4: &'static str = "\", \"findings\": []}`.
Begin the scan now.";

/// The audit of a codebase called `name`.
pub open spec fn sast_request(name: Seq<char>) -> Seq<char> {
    SAST_1@ + name + SAST_2@ + name + SAST_3@ + name + SAST_4@
}

/// The audit of a codebase called `name`.
pub fn sast_prompt(name: &str) -> (r: String)
    ensures
        r@ == sast_request(name@),
{
    let mut s = SAST_1.to_owned();
    s.push_str(name);
    s.push_str(SAST_2);
    s.push_str(name);
    s.push_str(SAST_3);
    s.push_str(name);
    s.push_str(SAST_4);
    s
}

pub const SCA_1: &'static str = "You are a security engineer performing a Software Composition Analysis (SCA) reachability audit.

Target codebase: ";

pub const SCA_2: &'static str = "
The source code is available in your local sandbox — use your tools to read and analyse it.

## CVEs Found in Dependencies

";

pub const SCA_3: &'static str = "

## Your Task

For EACH CVE above, determine:

1. **Reachable** — Does the application actually call the vulnerable component?
   - Read the package's import/usage in the codebase
   - Trace the call path from application code → vulnerable function
   - Consider all import styles (direct import, transitive re-export, dynamic require)

2. **Exploitable in context** — Even if reachable, is the vulnerable code path triggered by attacker-controlled input?
   - Does untrusted data (HTTP request params, user input, external files) flow into the vulnerable function?
   - Are there compensating controls (input validation, WAF, auth gates) that block exploitation?

3. **Verdict** — For each CVE:
   - `confirmed_reachable` — called with untrusted input, no effective mitigation
   - `likely_reachable` — called but can't fully trace input source
   - `not_reachable` — imported but the vulnerable function/path is never called
   - `unknown` — can't determine from source alone (e.g. runtime-only, config-driven)

## Output Format

After your analysis, output a JSON block EXACTLY like this:

```json
{
  \"scan_target\": \"";

pub const SCA_4: &'static str = "\",
  \"findings\": [
    {
      \"severity\": \"critical\",
      \"title\": \"SQL Injection via requests CVE-2024-XXXX — confirmed reachable\",
      \"cve_id\": \"CVE-2024-XXXX\",
      \"package\": \"requests\",
      \"version\": \"2.28.0\",
      \"is_direct\": true,
      \"via\": [],
      \"fix_version\": \"2.31.0\",
      \"reachable\": true,
      \"reachability_confidence\": \"confirmed_reachable\",
      \"description\": \"The vulnerable session handling in requests is called from api/client.py line 42 with user-supplied URLs. No validation is applied before the call.\",
      \"ai_reasoning\": \"Found import of requests in api/client.py. fetch_user_data() on line 42 passes request.args.get('url') directly to requests.get(). This is attacker-controlled input reaching the vulnerable function.\"
    }
  ]
}
```

Only include CVEs that are `confirmed_reachable` or `likely_reachable` in the JSON.
Briefly note `not_reachable` ones in your analysis text but exclude them from the findings JSON.
Begin.";

/// The audit of what a codebase reaches of its dependencies.
pub open spec fn sca_request(target: Seq<char>, vuln_list: Seq<char>) -> Seq<char> {
    SCA_1@ + target + SCA_2@ + vuln_list + SCA_3@ + target + SCA_4@
}

/// The audit of what a codebase reaches of its dependencies.
pub fn sca_prompt(target: &str, vuln_list: &str) -> (r: String)
    ensures
        r@ == sca_request(target@, vuln_list@),
{
    let mut s = SCA_1.to_owned();
    s.push_str(target);
    s.push_str(SCA_2);
    s.push_str(vuln_list);
    s.push_str(SCA_3);
    s.push_str(target);
    s.push_str(SCA_4);
    s
}

pub const CONTAINER_1: &'static str = "You are a security engineer performing a container image security audit.

Image: ";

pub const CONTAINER_2: &'static str = "
Base OS: ";

pub const CONTAINER_3: &'static str = "
The extracted container filesystem is available in your sandbox — use your tools to read it.

## CVEs Found in Container Packages

";

pub const CONTAINER_4: &'static str = "

## Your Task

For EACH CVE above, determine:

1. **Exposed** — Is the vulnerable package actually present and used?
   - OS packages: check if the binary/library is present and callable
   - App packages: trace import/usage in the application code under /app/

2. **Reachable from outside** — Is the vulnerable code path triggerable by an external actor?
   - Consider the container's exposed services (HTTP, gRPC, etc.)
   - Check if attacker-controlled input reaches the vulnerable function
   - Look for compensating controls (auth, input validation, network isolation)

3. **Verdict** — For each CVE:
   - `confirmed_reachable` — binary/library used AND reachable by external input
   - `likely_reachable` — used but can't fully trace external exposure
   - `not_reachable` — package present but the vulnerable path is never exercised
   - `unknown` — insufficient info to determine

## Output Format

After your analysis, output a JSON block EXACTLY like this:

```json
{
  \"scan_target\": \"";

pub const CONTAINER_5: &'static str = "\",
  \"findings\": [
    {
      \"severity\": \"critical\",
      \"title\": \"Log4Shell in log4j-core — confirmed reachable\",
      \"cve_id\": \"CVE-2021-44228\",
      \"package\": \"log4j-core\",
      \"version\": \"2.14.1\",
      \"is_direct\": true,
      \"via\": [],
      \"fix_version\": \"2.17.0\",
      \"reachable\": true,
      \"reachability_confidence\": \"confirmed_reachable\",
      \"description\": \"log4j-core 2.14.1 is present and the application logs user-controlled HTTP headers at /app/src/Server.java:82, directly triggering the JNDI lookup.\",
      \"ai_reasoning\": \"Found log4j-core JAR in /app/lib/. Application code at Server.java:82 calls logger.info(request.getHeader(\\\"X-Api-Version\\\")), passing the attacker-controlled header to log4j.\"
    }
  ]
}
```

Only include `confirmed_reachable` or `likely_reachable` findings in the JSON.
Note `not_reachable` ones in your analysis text but exclude them from the JSON.
Begin.";

/// The audit of a container image.
pub open spec fn container_request(image: Seq<char>, os_label: Seq<char>, vuln_list: Seq<char>) -> Seq<char> {
    CONTAINER_1@ + image + CONTAINER_2@ + os_label + CONTAINER_3@ + vuln_list + CONTAINER_4@ + image + CONTAINER_5@
}

/// The audit of a container image.
pub fn container_prompt(image: &str, os_label: &str, vuln_list: &str) -> (r: String)
    ensures
        r@ == container_request(image@, os_label@, vuln_list@),
{
    let mut s = CONTAINER_1.to_owned();
    s.push_str(image);
    s.push_str(CONTAINER_2);
    s.push_str(os_label);
    s.push_str(CONTAINER_3);
    s.push_str(vuln_list);
    s.push_str(CONTAINER_4);
    s.push_str(image);
    s.push_str(CONTAINER_5);
    s
}

pub const IAC_1: &'static str = "You are a cloud security engineer performing an Infrastructure-as-Code (IaC) security audit.

Target: ";

pub const IAC_2: &'static str = "
All IaC files listed below are available in your sandbox — use your file-reading tools to inspect each one.

## Detected IaC Files

";

pub const IAC_3: &'static str = "

## What to Check

For each file type, look for the following classes of misconfiguration:

**Terraform**
- S3/GCS/Azure Blob buckets with public access or missing encryption
- Security groups / NSGs with 0.0.0.0/0 ingress on sensitive ports (22, 3306, 5432, 6379, 27017)
- IAM roles/policies with wildcard actions (\"*\") or overly broad resources
- Hardcoded secrets, passwords, or access keys in variables or resource attributes
- Unencrypted EBS/RDS/ElastiCache/Secrets
- RDS instances with `publicly_accessible = true`
- Missing deletion protection on critical resources (RDS, ALB)
- S3 buckets without versioning or logging
- VPCs with flow logs disabled
- Kubernetes clusters with overly permissive RBAC or public endpoint

**Kubernetes / Helm**
- Containers running as root (`runAsUser: 0` or missing `runAsNonRoot: true`)
- `securityContext.privileged: true`
- Missing CPU/memory `limits`
- `hostNetwork: true`, `hostPID: true`, `hostIPC: true`
- Secrets exposed as plain-text environment variables
- Overly permissive RBAC (ClusterAdmin, wildcard verbs/resources)
- `automountServiceAccountToken: true` on pods that don't need it
- Images using `latest` tag
- Missing `readOnlyRootFilesystem: true`
- Services of type LoadBalancer exposing unnecessary ports

**Dockerfile**
- No `USER` instruction (running as root)
- Using `latest` tag for base image
- Secrets or tokens in `ENV` or `ARG`
- `RUN curl | sh` or arbitrary internet downloads
- Excessive base image (use slim/distroless)
- Unnecessary `EXPOSE` of sensitive ports

**Docker Compose**
- `privileged: true`
- Ports bound to `0.0.0.0` unnecessarily
- Volumes mounting sensitive host directories (`/`, `/etc`, `/var/run/docker.sock`)
- Hardcoded secrets in `environment`
- Missing `restart: unless-stopped` or resource limits

**GitHub Actions**
- `pull_request_target` with checkout + code execution (script injection)
- Secrets or tokens echoed to logs
- Actions pinned to branch/tag instead of SHA (`uses: actions/checkout@main`)
- Overly permissive top-level `permissions: write-all`
- User-controlled input injected into `run:` shell commands via `${{ github.event.* }}`
- `GITHUB_TOKEN` with excessive permissions

**CloudFormation / ARM**
- Public S3 buckets (`PublicAccessBlockConfiguration` missing/disabled)
- Unencrypted RDS, S3, or EBS
- Hardcoded passwords in `Parameters` defaults or `Properties`
- Over-permissive IAM policies
- Missing MFA enforcement
- Security groups open to 0.0.0.0/0

**Ansible**
- Tasks using `shell` or `command` with user-supplied variables unquoted
- Hardcoded credentials or `vars` with secrets
- `no_log: false` on tasks handling secrets
- Missing privilege escalation guards

## Output Format

After reading and analysing every file, output a JSON block EXACTLY like this (no other JSON):

```json
{
  \"scan_target\": \"";

pub const IAC_4: &'static str = "\",
  \"findings\": [
    {
      \"severity\": \"high\",
      \"title\": \"S3 bucket allows public read access\",
      \"file\": \"terraform/s3.tf\",
      \"line\": 14,
      \"resource\": \"aws_s3_bucket.assets\",
      \"iac_type\": \"terraform\",
      \"description\": \"The bucket ACL is set to 'public-read', exposing all objects. An attacker can enumerate and download any stored file without authentication.\",
      \"fix\": \"Remove the acl attribute or set it to 'private'. Add an aws_s3_bucket_public_access_block resource with all block flags set to true.\"
    }
  ]
}
```

Severity levels: critical, high, medium, low.
Include ALL confirmed misconfigurations — do not skip minor ones.
If a file has no issues, do not include it in the findings.
Begin.";

/// The audit of infrastructure files.
pub open spec fn iac_request(target: Seq<char>, type_summary: Seq<char>) -> Seq<char> {
    IAC_1@ + target + IAC_2@ + type_summary + IAC_3@ + target + IAC_4@
}

/// The audit of infrastructure files.
pub fn iac_prompt(target: &str, type_summary: &str) -> (r: String)
    ensures
        r@ == iac_request(target@, type_summary@),
{
    let mut s = IAC_1.to_owned();
    s.push_str(target);
    s.push_str(IAC_2);
    s.push_str(type_summary);
    s.push_str(IAC_3);
    s.push_str(target);
    s.push_str(IAC_4);
    s
}

pub const DAST_1: &'static str = "You are a security engineer performing a comprehensive DAST (Dynamic Application Security Testing) scan.

Target URL: ";

pub const DAST_2: &'static str = "
";

pub const DAST_3: &'static str = "
## Methodology

Work through these phases in order:

### 1. Reconnaissance
- Fetch the root URL and map all links, forms, and API endpoints
- Identify the technology stack (server headers, cookies, error pages)
- Enumerate paths: try /robots.txt, /sitemap.xml, /.well-known/, /api, /swagger, /openapi.json, /graphql
- Check for exposed admin panels, debug endpoints, and developer tools

### 2. Crawl & Inventory
- Follow all internal links up to 2 levels deep
- Record every form (action, method, fields) and every API endpoint found
- Note all input parameters (query string, body fields, path params, headers)

### 3. Active Testing
Test every endpoint and parameter for:

**Injection**
- SQL injection: try `'`, `' OR '1'='1`, `1; DROP TABLE users--`
- Command injection: try `; id`, `| whoami`, `$(id)`, `` `id` ``
- SSTI: try `{7*7}`, `<%= 7*7 %>`, `${7*7}`
- Path traversal: try `../../../etc/passwd`, `....//....//etc/passwd`

**Authentication & Session**
- Try accessing authenticated endpoints without credentials
- Check for default credentials on admin panels
- Test for JWT algorithm confusion (alg: none, RS256→HS256)
- Check cookie flags: Secure, HttpOnly, SameSite

**Injection via headers**
- Host header injection
- X-Forwarded-For / X-Real-IP bypass
- SSRF via Referer, redirect params, webhook URLs

**Business logic**
- Negative quantities, zero-price purchases
- Mass assignment: send extra JSON fields not in the form
- IDOR: change numeric IDs in URLs to access other users' data
- Privilege escalation: try low-privilege actions that should require admin

**Information disclosure**
- Verbose error messages with stack traces
- Directory listing
- Exposed .git, .env, .DS_Store, backup files (.bak, ~, .old)
- Sensitive data in response bodies (tokens, keys, PII)

**Security headers**
- Missing: Content-Security-Policy, X-Frame-Options, HSTS, X-Content-Type-Options
- CORS misconfiguration: test with Origin: https://evil.com

### 4. Output

For EVERY confirmed or highly-probable finding, provide:
1. Title
2. Severity: critical / high / medium / low
3. URL and parameter affected
4. HTTP request that triggers it (method, path, body)
5. HTTP response evidence (status code, key response text)
6. Description
7. Recommended fix

After your analysis output a JSON block EXACTLY like this:

```json
{
  \"scan_target\": \"";

pub const DAST_4: &'static str = "\",
  \"findings\": [
    {
      \"severity\": \"critical\",
      \"title\": \"SQL Injection in /api/users\",
      \"url\": \"";

pub const DAST_5: &'static str = "/api/users?id=1'\",
      \"parameter\": \"id\",
      \"method\": \"GET\",
      \"request\": \"GET /api/users?id=1' HTTP/1.1\\\\nHost: ...\",
      \"evidence\": \"500 Internal Server Error: syntax error near '1''\",
      \"description\": \"The id parameter is interpolated into a SQL query without sanitisation.\",
      \"fix\": \"Use parameterised queries.\"
    }
  ]
}
```

If no findings are found, output `{\"scan_target\": \"";

pub const DAST_6: &'static str = "\", \"findings\": []}`.

Begin the scan now.";

/// The audit of a running application.
pub open spec fn dast_request(url: Seq<char>, auth_block: Seq<char>, scope_block: Seq<char>) -> Seq<char> {
    DAST_1@ + url + DAST_2@ + auth_block + scope_block + DAST_3@ + url + DAST_4@ + url + DAST_5@ + url + DAST_6@
}

/// The audit of a running application.
pub fn dast_prompt(url: &str, auth_block: &str, scope_block: &str) -> (r: String)
    ensures
        r@ == dast_request(url@, auth_block@, scope_block@),
{
    let mut s = DAST_1.to_owned();
    s.push_str(url);
    s.push_str(DAST_2);
    s.push_str(auth_block);
    s.push_str(scope_block);
    s.push_str(DAST_3);
    s.push_str(url);
    s.push_str(DAST_4);
    s.push_str(url);
    s.push_str(DAST_5);
    s.push_str(url);
    s.push_str(DAST_6);
    s
}

/// How the agent signs in: the cookie where there is one, else the token.
pub open spec fn auth_block(cookie: Option<Seq<char>>, bearer: Option<Seq<char>>) -> Seq<char> {
    match cookie {
        Some(c) => "\n## Authentication\nInclude this cookie on all requests:\n  Cookie: "@ + c + "\n"@,
        None => match bearer {
            Some(t) => "\n## Authentication\nInclude this header on all requests:\n  Authorization: Bearer "@
                + t + "\n"@,
            None => Seq::empty(),
        },
    }
}

/// The paths that the agent keeps to.
pub open spec fn scope_block(scope: Seq<Seq<char>>) -> Seq<char> {
    if scope.len() == 0 {
        Seq::empty()
    } else {
        "\n## Scope restriction\nOnly test paths under these prefixes:\n"@ + pieces::join(
            scope.map_values(|p: Seq<char>| "  - "@ + p),
            "\n"@,
        ) + "\n"@
    }
}

/// The texts with a prefix before each.
pub fn prefixed(prefix: &str, v: &Vec<String>) -> (r: Vec<String>)
    ensures
        text::views(r@) == text::views(v@).map_values(|p: Seq<char>| prefix@ + p),
{
    let ghost want = text::views(v@).map_values(|p: Seq<char>| prefix@ + p);
    let mut out: Vec<String> = Vec::new();
    assert(want.take(0) =~= Seq::empty());
    let mut i: usize = 0;
    while i < v.len()
        invariant
            i <= v@.len(),
            want == text::views(v@).map_values(|p: Seq<char>| prefix@ + p),
            text::views(out@) == want.take(i as int),
        decreases v@.len() - i,
    {
        let mut s = prefix.to_owned();
        s.push_str(&v[i]);
        assert(text::views(v@)[i as int] == v@[i as int]@);
        out.push(s);
        assert(want.take(i + 1) =~= want.take(i as int).push(want[i as int]));
        i += 1;
    }
    assert(want.take(want.len() as int) =~= want);
    out
}

/// The audit of a codebase; one whose directory has no name is just called so.
pub fn build_sast_prompt(dir_name: &Option<String>) -> (r: String)
    ensures
        r@ == sast_request(text::text_or(text::opt_view(*dir_name), "codebase"@)),
{
    let name = text::opt_or(dir_name, "codebase");
    sast_prompt(&name)
}

/// The audit of a running application at `url`.
pub fn build_dast_prompt(
    url: &str,
    cookie: &Option<String>,
    bearer: &Option<String>,
    scope: &Vec<String>,
) -> (r: String)
    ensures
        r@ == dast_request(
            url@,
            auth_block(text::opt_view(*cookie), text::opt_view(*bearer)),
            scope_block(text::views(scope@)),
        ),
{
    let mut auth = String::new();
    match cookie {
        Some(c) => {
            auth = "\n## Authentication\nInclude this cookie on all requests:\n  Cookie: ".to_owned();
            auth.push_str(c);
            auth.push_str("\n");
        },
        None => match bearer {
            Some(t) => {
                auth =
                "\n## Authentication\nInclude this header on all requests:\n  Authorization: Bearer ".to_owned();
                auth.push_str(t);
                auth.push_str("\n");
            },
            None => {},
        },
    }
    let mut limits = String::new();
    if scope.len() > 0 {
        limits = "\n## Scope restriction\nOnly test paths under these prefixes:\n".to_owned();
        let marked = prefixed("  - ", scope);
        let paths = pieces::str_join(&marked, "\n");
        limits.push_str(&paths);
        limits.push_str("\n");
    }
    dast_prompt(url, &auth, &limits)
}

} // verus!
