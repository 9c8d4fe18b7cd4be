use vstd::prelude::*;
use vstd::string::*;
use crate::text::chars_of;

verus! {

/// Directory that holds the rendered artifacts.
pub const MATH_DIR: &'static str = "math/";

/// Extension of a rendered artifact.
pub const ARTIFACT_EXT: &'static str = ".svg";

/// Style directive written ahead of the math source for the typesetter.
pub const STYLE_PREFIX: &'static str = "#show math.equation: set text(1.15em)\n";

/// Class attribute given to an inline artifact.
pub const INLINE_CLASS_ATTR: &'static str = " class=\"math-inline\"";

/// Class attribute given to a block artifact.
pub const BLOCK_CLASS_ATTR: &'static str = " class=\"math\"";

/// Where the artifact for a math source is kept: the source is used verbatim.
pub open spec fn artifact_path_model(source: Seq<char>) -> Seq<char> {
    MATH_DIR@ + source + ARTIFACT_EXT@
}

/// The artifact's path for a math source.
pub fn artifact_path(source: &str) -> (r: String)
    ensures
        r@ == artifact_path_model(source@),
{
    let mut r = String::from_str(MATH_DIR);
    r.append(source);
    r.append(ARTIFACT_EXT);
    r
}

/// The typesetter's input for a math source.
pub fn typeset_input(source: &str) -> (r: String)
    ensures
        r@ == STYLE_PREFIX@ + source@,
{
    let mut r = String::from_str(STYLE_PREFIX);
    r.append(source);
    r
}

/// Whether the tool chain has to run: always without a cache, and with one
/// only when no artifact is there yet.
pub open spec fn render_needed(cache_enabled: bool, artifact_present: bool) -> bool {
    !(cache_enabled && artifact_present)
}

/// Whether the tool chain has to run for this render.
pub fn should_render(cache_enabled: bool, artifact_present: bool) -> (r: bool)
    ensures
        r == render_needed(cache_enabled, artifact_present),
{
    !(cache_enabled && artifact_present)
}

/// The class attribute that marks an artifact inline or block.
pub open spec fn class_attr(is_inline: bool) -> Seq<char> {
    if is_inline {
        INLINE_CLASS_ATTR@
    } else {
        BLOCK_CLASS_ATTR@
    }
}

/// The image tag name occurs at position `i` of `s`.
pub open spec fn tag_at(s: Seq<char>, i: int) -> bool {
    0 <= i && i + 3 <= s.len() && s[i] == 's' && s[i + 1] == 'v' && s[i + 2] == 'g'
}

/// `i` is the first position at which the image tag name occurs.
pub open spec fn first_tag_at(s: Seq<char>, i: int) -> bool {
    tag_at(s, i) && forall|j: int| 0 <= j < i ==> !tag_at(s, j)
}

/// The artifact text with the class attribute put right after the first
/// occurrence of the tag name; unchanged where the name does not occur.
pub open spec fn with_class_model(s: Seq<char>, is_inline: bool) -> Seq<char> {
    if exists|i: int| tag_at(s, i) {
        let i = choose|i: int| first_tag_at(s, i);
        s.subrange(0, i + 3) + class_attr(is_inline) + s.subrange(i + 3, s.len() as int)
    } else {
        s
    }
}

proof fn lemma_first_tag_unique(s: Seq<char>, i: int, k: int)
    requires
        first_tag_at(s, i),
        first_tag_at(s, k),
    ensures
        i == k,
{
}

/// Marks the artifact's root image tag with the class for its display mode.
pub fn with_class(svg: &str, is_inline: bool) -> (r: String)
    ensures
        r@ == with_class_model(svg@, is_inline),
{
    let cs = chars_of(svg);
    let n = cs.len();
    let mut i: usize = 0;
    let mut found = false;
    while n >= 3 && i <= n - 3 && !found
        invariant
            cs@ == svg@,
            n == cs.len(),
            found ==> first_tag_at(cs@, i as int),
            !found ==> forall|j: int| 0 <= j < i ==> !tag_at(cs@, j),
            !found ==> i <= n,
        decreases n - i + (if found { 0int } else { 1 }),
    {
        if cs[i] == 's' && cs[i + 1] == 'v' && cs[i + 2] == 'g' {
            found = true;
        } else {
            i = i + 1;
        }
    }
    if !found {
        proof {
            assert(n < 3 || i > n - 3);
            assert forall|j: int| !tag_at(svg@, j) by {
                if tag_at(svg@, j) {
                    assert(j < i);
                }
            }
        }
        return String::from_str(svg);
    }
    let mut r = String::new();
    let mut k: usize = 0;
    while k < i + 3
        invariant
            i + 3 <= n,
            n == cs.len(),
            k <= i + 3,
            r@ == cs@.subrange(0, k as int),
        decreases i + 3 - k,
    {
        r.push(cs[k]);
        proof {
            assert(cs@.subrange(0, k + 1) =~= cs@.subrange(0, k as int).push(cs@[k as int]));
        }
        k = k + 1;
    }
    if is_inline {
        r.append(INLINE_CLASS_ATTR);
    } else {
        r.append(BLOCK_CLASS_ATTR);
    }
    let ghost head = r@;
    while k < n
        invariant
            i + 3 <= k <= n,
            n == cs.len(),
            r@ == head + cs@.subrange(i + 3, k as int),
        decreases n - k,
    {
        r.push(cs[k]);
        proof {
            assert(cs@.subrange(i + 3, k + 1) =~= cs@.subrange(i + 3, k as int).push(
                cs@[k as int],
            ));
        }
        k = k + 1;
    }
    proof {
        let c = choose|c: int| first_tag_at(svg@, c);
        lemma_first_tag_unique(svg@, i as int, c);
    }
    r
}

proof fn lemma_first_tag_exists(s: Seq<char>, i: int)
    requires
        tag_at(s, i),
    ensures
        exists|k: int| first_tag_at(s, k),
    decreases i,
{
    if exists|j: int| 0 <= j < i && tag_at(s, j) {
        let j = choose|j: int| 0 <= j < i && tag_at(s, j);
        lemma_first_tag_exists(s, j);
    } else {
        assert(first_tag_at(s, i));
    }
}

/// Every artifact that has a root image tag leaves with exactly one class on
/// it: the inline class when `is_inline` holds, the block class otherwise.
pub proof fn lemma_class_exclusive(s: Seq<char>, is_inline: bool)
    requires
        exists|i: int| tag_at(s, i),
    ensures
        exists|i: int|
            first_tag_at(s, i) && with_class_model(s, is_inline) == s.subrange(0, i + 3)
                + class_attr(is_inline) + s.subrange(i + 3, s.len() as int),
        class_attr(is_inline) == (if is_inline {
            INLINE_CLASS_ATTR@
        } else {
            BLOCK_CLASS_ATTR@
        }),
        INLINE_CLASS_ATTR@ != BLOCK_CLASS_ATTR@,
{
    let i = choose|i: int| tag_at(s, i);
    lemma_first_tag_exists(s, i);
    let k = choose|k: int| first_tag_at(s, k);
    assert(first_tag_at(s, k));
    reveal_strlit(" class=\"math-inline\"");
    reveal_strlit(" class=\"math\"");
    assert(INLINE_CLASS_ATTR@.len() != BLOCK_CLASS_ATTR@.len());
}

/// The views of a list of strings.
pub open spec fn string_views(v: Seq<String>) -> Seq<Seq<char>> {
    v.map_values(|s: String| s@)
}

/// Arguments of the typesetter: compile `input` into the image `output`.
pub fn typeset_args(input: &str, output: &str) -> (r: Vec<String>)
    ensures
        string_views(r@) == seq!["compile"@, input@, output@],
{
    let r = vec![String::from_str("compile"), String::from_str(input), String::from_str(output)];
    assert(string_views(r@) =~= seq!["compile"@, input@, output@]);
    r
}

/// Where the typesetter writes its image, next to a fresh temporary name.
pub fn intermediate_path(temp: &str) -> (r: String)
    ensures
        r@ == temp@ + ARTIFACT_EXT@,
{
    let mut r = String::from_str(temp);
    r.append(ARTIFACT_EXT);
    r
}

/// Arguments of the bounds normaliser: crop `input` to its drawing and write `output`.
pub fn normalize_args(output: &str, input: &str) -> (r: Vec<String>)
    ensures
        string_views(r@) == seq![
            "--export-filename="@ + output@,
            "--export-area-drawing"@,
            input@,
        ],
{
    let mut flag = String::from_str("--export-filename=");
    flag.append(output);
    let r = vec![flag, String::from_str("--export-area-drawing"), String::from_str(input)];
    assert(string_views(r@) =~= seq![
        "--export-filename="@ + output@,
        "--export-area-drawing"@,
        input@,
    ]);
    r
}

/// Arguments of the precision reducer: two significant digits everywhere,
/// identifiers kept, rewriting `path` in place.
pub fn reduce_args(path: &str) -> (r: Vec<String>)
    ensures
        string_views(r@) == seq![
            "--trim-ids=no"@,
            "--coordinates-precision=2"@,
            "--properties-precision=2"@,
            "--transforms-precision=2"@,
            "--paths-coordinates-precision=2"@,
            path@,
            path@,
        ],
{
    let r = vec![
        String::from_str("--trim-ids=no"),
        String::from_str("--coordinates-precision=2"),
        String::from_str("--properties-precision=2"),
        String::from_str("--transforms-precision=2"),
        String::from_str("--paths-coordinates-precision=2"),
        String::from_str(path),
        String::from_str(path),
    ];
    assert(string_views(r@) =~= seq![
        "--trim-ids=no"@,
        "--coordinates-precision=2"@,
        "--properties-precision=2"@,
        "--transforms-precision=2"@,
        "--paths-coordinates-precision=2"@,
        path@,
        path@,
    ]);
    r
}

/// What the render pipeline does next.
#[derive(PartialEq, Eq, Structural, Clone, Copy, Debug)]
pub enum Stage {
    /// Compile the math source into an intermediate image.
    Typeset,
    /// Crop the intermediate image and write the artifact.
    Normalize,
    /// Reduce the artifact's numeric precision in place.
    Reduce,
    /// Read the artifact back.
    Read,
}

/// The stage after a tool succeeded.
pub open spec fn next_stage(s: Stage) -> Stage {
    match s {
        Stage::Typeset => Stage::Normalize,
        Stage::Normalize => Stage::Reduce,
        _ => Stage::Read,
    }
}

/// The stage a render starts at.
pub open spec fn first_stage_model(cache_enabled: bool, artifact_present: bool) -> Stage {
    if render_needed(cache_enabled, artifact_present) {
        Stage::Typeset
    } else {
        Stage::Read
    }
}

/// Where the pipeline starts: a cached artifact is read directly.
pub fn first_stage(cache_enabled: bool, artifact_present: bool) -> (r: Stage)
    ensures
        r == first_stage_model(cache_enabled, artifact_present),
{
    if should_render(cache_enabled, artifact_present) {
        Stage::Typeset
    } else {
        Stage::Read
    }
}

/// The decision after the tool of `stage` exited with `exit_code`.
pub open spec fn after_tool_model(stage: Stage, exit_code: i32) -> Result<Stage, i32> {
    if exit_code == 0 {
        Ok(next_stage(stage))
    } else {
        Err(exit_code)
    }
}

/// The decision after the tool of `stage` exited: go on to the next stage,
/// or end the whole run with the tool's exit code.
pub fn after_tool(stage: Stage, exit_code: i32) -> (r: Result<Stage, i32>)
    requires
        stage != Stage::Read,
    ensures
        r == after_tool_model(stage, exit_code),
{
    if exit_code != 0 {
        return Err(exit_code);
    }
    match stage {
        Stage::Typeset => Ok(Stage::Normalize),
        Stage::Normalize => Ok(Stage::Reduce),
        _ => Ok(Stage::Read),
    }
}

/// The outcome of running the pipeline from `stage` with the tools exiting
/// with `codes`, one per tool run, in order.
pub open spec fn drive(stage: Stage, codes: Seq<i32>) -> Result<Stage, i32>
    decreases codes.len(),
{
    if stage == Stage::Read || codes.len() == 0 {
        Ok(stage)
    } else {
        match after_tool_model(stage, codes[0]) {
            Ok(s) => drive(s, codes.drop_first()),
            Err(c) => Err(c),
        }
    }
}

/// A render ends with the exit code of the first tool that fails, and
/// reaches the read only when all three tools succeed.
pub proof fn lemma_failure_ends_run(codes: Seq<i32>)
    requires
        codes.len() == 3,
    ensures
        forall|k: int|
            0 <= k < 3 && codes[k] != 0 && (forall|j: int| 0 <= j < k ==> codes[j] == 0)
                ==> drive(Stage::Typeset, codes) == Err::<Stage, i32>(codes[k]),
        (forall|j: int| 0 <= j < 3 ==> codes[j] == 0) ==> drive(Stage::Typeset, codes) == Ok::<
            Stage,
            i32,
        >(Stage::Read),
{
    reveal_with_fuel(drive, 4);
    let c1 = codes.drop_first();
    let c2 = c1.drop_first();
    assert(c1[0] == codes[1]);
    assert(c2[0] == codes[2]);
}

/// Whether the artifact is at its path once a render that started at `stage`
/// has completed: the tool chain writes it there.
pub open spec fn present_after(present: bool, stage: Stage) -> bool {
    present || stage == Stage::Typeset
}

/// How many times a render that starts at `stage` runs the tool chain.
pub open spec fn tool_runs(stage: Stage) -> int {
    if stage == Stage::Typeset {
        1
    } else {
        0
    }
}

/// With the cache on, rendering one source twice runs the tool chain at most
/// once, and the second render goes straight to reading the artifact.
pub proof fn lemma_cache_round_trip(present: bool)
    ensures
        ({
            let first = first_stage_model(true, present);
            let second = first_stage_model(true, present_after(present, first));
            tool_runs(first) + tool_runs(second) <= 1 && second == Stage::Read
        }),
{
}

} // verus!
