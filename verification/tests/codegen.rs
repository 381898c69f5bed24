use sdw::lex::lex;
use sdw::parse::parse;
use sdw::sem::{semantic, AbstractExpression, AbstractExpressionType, AbstractNode,
    AbstractNodeType};
use sdw::translate::{get_va, ins_va, mangle_fn, seq_mangle, translate, CodegenContext, Targets};
use sdw::{Span, Spanned, Type};

fn compile(src: &str) -> String {
    let typed = semantic(&parse(lex(src).unwrap()).unwrap()).unwrap();
    translate(Targets::Llvm, &typed).unwrap()
}

#[test]
fn smallest_function_exact_output() {
    assert_eq!(
        compile("fn int main() { return 4; }"),
        "define i64 @main() {\n  ret i64 4\n  unreachable\n}\n"
    );
}

#[test]
fn parameters_get_slots() {
    let ir = compile("fn int addTwo(int a, int b) { return a + b; }");
    assert_eq!(
        ir,
        "define i64 @addTwo(i64 %a, i64 %b) {\n\
         \x20 %1 = alloca i64\n\
         \x20 store i64 %a, ptr %1\n\
         \x20 %2 = alloca i64\n\
         \x20 store i64 %b, ptr %2\n\
         \x20 %3 = load i64, ptr %1\n\
         \x20 %4 = load i64, ptr %2\n\
         \x20 %5 = add i64 %3, %4\n\
         \x20 ret i64 %5\n\
         \x20 unreachable\n\
         }\n"
    );
}

/// The labels of every block, in order of appearance.
fn block_labels(ir: &str) -> Vec<String> {
    ir.lines()
        .filter(|l| l.ends_with(":"))
        .map(|l| l.trim_end_matches(':').to_string())
        .collect()
}

/// The branch targets reachable from the block that starts at `label`.
fn successors_of(ir: &str, label: &str) -> Vec<String> {
    let mut inside = false;
    let mut out: Vec<String> = Vec::new();
    for line in ir.lines() {
        if line == format!("{}:", label) {
            inside = true;
            continue;
        }
        if inside {
            if line.ends_with(":") {
                break;
            }
            if let Some(rest) = line.trim().strip_prefix("br i1 ") {
                let parts: Vec<&str> = rest.split("label %").collect();
                for p in parts.iter().skip(1) {
                    out.push(p.trim_end_matches(", ").trim().to_string());
                }
                break;
            }
            if let Some(rest) = line.trim().strip_prefix("br label %") {
                out.push(rest.trim().to_string());
                break;
            }
        }
    }
    out
}

#[test]
fn else_if_chain_control_flow() {
    // one path from each of the three bodies converges on a single shared
    // exit block, and exactly two conditional branches stand in the output
    let ir = compile(
        "fn int m(bool a, bool b) { if a { return 1; } else if b { return 2; } else { return 3; } }",
    );
    let cond_branches = ir.lines().filter(|l| l.trim().starts_with("br i1 ")).count();
    assert_eq!(cond_branches, 2);

    let labels = block_labels(&ir);
    // the shared exit carries the first tag drawn for the chain, and is the
    // target that every body branches to
    let exit = labels.last().unwrap().clone();
    let uncond: Vec<&str> = ir
        .lines()
        .map(|l| l.trim())
        .filter(|l| l.starts_with("br label %"))
        .collect();
    let to_exit = uncond
        .iter()
        .filter(|l| **l == format!("br label %{}", exit))
        .count();
    assert_eq!(to_exit, 3);
    // exactly one block is labelled with the exit tag
    assert_eq!(labels.iter().filter(|l| **l == exit).count(), 1);

    // each conditional branch's true block reaches the exit, and the final
    // false block (the else body) does too
    let mut true_blocks: Vec<String> = Vec::new();
    let mut false_blocks: Vec<String> = Vec::new();
    for line in ir.lines().map(|l| l.trim()) {
        if let Some(rest) = line.strip_prefix("br i1 ") {
            let parts: Vec<&str> = rest.split(", label %").collect();
            true_blocks.push(parts[1].trim().to_string());
            false_blocks.push(parts[2].trim().to_string());
        }
    }
    assert_eq!(true_blocks.len(), 2);
    for t in &true_blocks {
        assert_eq!(successors_of(&ir, t), vec![exit.clone()]);
    }
    let else_block = false_blocks.last().unwrap();
    assert_eq!(successors_of(&ir, else_block), vec![exit.clone()]);
}

#[test]
fn loop_lowering_and_break() {
    let ir = compile("fn void f() { loop { break; } return; }");
    // the loop body starts at its own label, break leaves for the end
    // label, and the back edge re-enters the start label
    let labels = block_labels(&ir);
    assert_eq!(labels.len(), 2);
    let start = &labels[0];
    let end = &labels[1];
    assert!(ir.contains(&format!("  br label %{}\n{}:", start, start)));
    assert!(ir.contains(&format!("  br label %{}\n", end)));
}

#[test]
fn continue_branches_to_loop_start() {
    let ir = compile("fn void f() { loop { continue; } return; }");
    let labels = block_labels(&ir);
    let start = &labels[0];
    // the back edge and the continue both aim at the start label
    let back_edges = ir
        .lines()
        .map(|l| l.trim())
        .filter(|l| *l == format!("br label %{}", start))
        .count();
    assert_eq!(back_edges, 3);
}

#[test]
fn shadowed_variable_gets_fresh_slot() {
    let ir = compile(
        "fn int f() { let x = 1; if true { let x = 2; x = 3; } return x; }",
    );
    // the inner declaration allocates its own slot; the inner store goes to
    // the inner slot and the final load reads the outer one
    let allocas = ir.lines().filter(|l| l.trim().starts_with("%") && l.contains("= alloca")).count();
    assert_eq!(allocas, 2);
}

#[test]
fn break_outside_loop_is_a_defect() {
    let typed = semantic(&parse(lex("fn void f() { break; }").unwrap()).unwrap()).unwrap();
    let r = translate(Targets::Llvm, &typed);
    assert!(matches!(r, Err(sdw::translate::CodegenError::BreakOutsideLoop)));
    let typed = semantic(&parse(lex("fn void f() { continue; }").unwrap()).unwrap()).unwrap();
    let r = translate(Targets::Llvm, &typed);
    assert!(matches!(r, Err(sdw::translate::CodegenError::ContinueOutsideLoop)));
}

#[test]
fn unbound_variable_is_a_defect() {
    // a hand-built typed tree that reassigns an undeclared variable is a
    // defect the generator reports rather than hides
    let span = Span { line: 0, column: 0, end_line: 0, end_col: 1 };
    let node = AbstractNode::new(
        AbstractNodeType::VRes {
            new: AbstractExpression::new(AbstractExpressionType::IntLit(1), span, Type::Int),
            name: Spanned::new(span, "x".to_string()),
        },
        span,
    );
    let r = translate(Targets::Llvm, &vec![node]);
    match r {
        Err(sdw::translate::CodegenError::UnboundVariable(v)) => {
            assert_eq!(v, "x".to_string());
        }
        other => panic!("wrong outcome: {:?}", other),
    }
}

#[test]
fn context_tags_are_sequential_and_shadowing() {
    let mut ctx = CodegenContext::new();
    let t1 = seq_mangle(&mut ctx);
    let t2 = seq_mangle(&mut ctx);
    assert_eq!(t1, 1);
    assert_eq!(t2, 2);
    let s1 = ins_va(&mut ctx, "x".to_string());
    assert_eq!(get_va(&ctx, &"x".to_string()), Some(s1));
    let s2 = ins_va(&mut ctx, "x".to_string());
    assert_eq!(get_va(&ctx, &"x".to_string()), Some(s2));
    assert!(s2 > s1);
    assert_eq!(get_va(&ctx, &"y".to_string()), None);
    assert_eq!(mangle_fn("main".to_string()), "main".to_string());
}

#[test]
fn booleans_lower_to_i1() {
    let ir = compile("fn bool f() { return true; }");
    assert_eq!(ir, "define i1 @f() {\n  ret i1 1\n  unreachable\n}\n");
}

#[test]
fn comparison_lowering() {
    let ir = compile("fn bool f(int a) { return a < 3; }");
    assert!(ir.contains("icmp slt i64"));
    let ir = compile("fn bool f(int a) { return a != 3; }");
    assert!(ir.contains("icmp ne i64"));
}

#[test]
fn standalone_call_lowering() {
    let ir = compile("fn void g(int a) { return; } fn void h() { g(7); return; }");
    assert!(ir.contains("  call void @g(i64 7)\n"));
}
