use vstd::prelude::*;
use vstd::string::StringExecFns;
use crate::span::Spanned;
use crate::text::join_with;
use crate::text::indent_text;
use crate::text::lemma_join_take_step;
use crate::text::str_eq;
use crate::parser::ast::TypeExpr;
use crate::parser::ast::TypeExprM;
use crate::parser::ast::ImportDecl;
use crate::parser::ast::ExternRustDecl;
use crate::parser::ast::ExternFnDecl;
use crate::parser::ast::ErrorDecl;
use crate::parser::ast::EnumDecl;
use crate::parser::ast::EnumVariant;
use crate::parser::ast::Field;
use crate::parser::ast::Param;
use crate::parser::ast::path_texts;
use crate::parser::ast::BinOp;
use crate::parser::spec_infix_binding_power;
use crate::text::chars_of;

verus! {

/// The source text of a type expression.
pub open spec fn te_text(t: TypeExprM) -> Seq<char>
    decreases t,
{
    match t {
        TypeExprM::Named(n) => n,
        TypeExprM::Array(e) => "["@ + te_text(e.node) + "]"@,
        TypeExprM::Qualified { module, name } => module + "."@ + name,
        TypeExprM::Fn { params, return_type } => {
            "fn("@ + te_join(params) + ")"@ + (if return_type.node == TypeExprM::Named("void"@) {
                Seq::empty()
            } else {
                " "@ + te_text(return_type.node)
            })
        },
        TypeExprM::Generic { name, type_args } => name + "<"@ + te_join(type_args) + ">"@,
        TypeExprM::Nullable(e) => te_text(e.node) + "?"@,
        TypeExprM::Stream(e) => "stream "@ + te_text(e.node),
    }
}

/// The texts of a sequence of type expressions, separated by `", "`.
pub open spec fn te_join(s: Seq<Spanned<TypeExprM>>) -> Seq<char>
    decreases s,
{
    if s.len() == 0 {
        Seq::empty()
    } else if s.len() == 1 {
        te_text(s[0].node)
    } else {
        te_join(s.drop_last()) + ", "@ + te_text(s.last().node)
    }
}

/// Extending a prefix by one element extends its text by a separator and that element's text.
pub proof fn lemma_te_join_take_step(s: Seq<Spanned<TypeExprM>>, i: int)
    requires
        0 <= i < s.len(),
    ensures
        te_join(s.take(i + 1)) == (if i == 0 { te_text(s[0].node) } else { te_join(s.take(i)) + ", "@ + te_text(s[i].node) }),
{
    assert(s.take(i + 1).drop_last() =~= s.take(i));
}

/// `pub ` for a public declaration.
pub open spec fn pub_prefix(is_pub: bool) -> Seq<char> {
    if is_pub { "pub "@ } else { Seq::empty() }
}

/// A parameter as written: `self` or `mut self` for a receiver, else `name: type`.
pub open spec fn param_text(p: Param) -> Seq<char> {
    let is_self = p.name.node@ == "self"@ && p.ty.node.model() == TypeExprM::Named("Self"@);
    if is_self && p.is_mut {
        "mut self"@
    } else if is_self {
        "self"@
    } else {
        p.name.node@ + ": "@ + te_text(p.ty.node.model())
    }
}

pub open spec fn param_texts(ps: Seq<Param>) -> Seq<Seq<char>> {
    ps.map_values(|p: Param| param_text(p))
}

/// `<T, U>` for type parameters, nothing when there are none.
pub open spec fn type_params_text(tps: Seq<Spanned<String>>) -> Seq<char> {
    if tps.len() == 0 {
        Seq::empty()
    } else {
        "<"@ + join_with(path_texts(tps), ", "@) + ">"@
    }
}

/// `extern fn name(params) ret`.
pub open spec fn extern_fn_text(ext: ExternFnDecl) -> Seq<char> {
    pub_prefix(ext.is_pub) + "extern fn "@ + ext.name.node@ + "("@ + join_with(param_texts(ext.params@), ", "@) + ")"@
        + match ext.return_type {
            Some(r) => " "@ + te_text(r.node.model()),
            None => Seq::empty(),
        }
}

/// A field on a line of its own at indentation `n`.
pub open spec fn field_line(f: Field, n: nat) -> Seq<char> {
    indent_text(n) + f.name.node@ + ": "@ + te_text(f.ty.node.model()) + "\n"@
}

pub open spec fn field_lines(fs: Seq<Field>, n: nat) -> Seq<char>
    decreases fs.len(),
{
    if fs.len() == 0 {
        Seq::empty()
    } else {
        field_lines(fs.drop_last(), n) + field_line(fs.last(), n)
    }
}

/// `error Name { fields }`, the fields one level deeper than `n`.
pub open spec fn error_decl_text(err: ErrorDecl, n: nat) -> Seq<char> {
    pub_prefix(err.is_pub) + "error "@ + err.name.node@ + " {"@ + "\n"@ + field_lines(err.fields@, n + 1) + "}"@
}

/// A variant on its line(s) at indentation `n`, its fields in braces one level deeper.
pub open spec fn variant_text(v: EnumVariant, n: nat) -> Seq<char> {
    indent_text(n) + v.name.node@ + (if v.fields@.len() > 0 {
        " {"@ + "\n"@ + field_lines(v.fields@, n + 1) + indent_text(n) + "}"@
    } else {
        Seq::empty()
    }) + "\n"@
}

pub open spec fn variant_lines(vs: Seq<EnumVariant>, n: nat) -> Seq<char>
    decreases vs.len(),
{
    if vs.len() == 0 {
        Seq::empty()
    } else {
        variant_lines(vs.drop_last(), n) + variant_text(vs.last(), n)
    }
}

/// `enum Name<T> { variants }`, the variants one level deeper than `n`.
pub open spec fn enum_decl_text(en: EnumDecl, n: nat) -> Seq<char> {
    pub_prefix(en.is_pub) + "enum "@ + en.name.node@ + type_params_text(en.type_params@) + " {"@ + "\n"@
        + variant_lines(en.variants@, n + 1) + "}"@
}

/// Accumulates pretty-printed source text at an indentation level.
pub struct PrettyPrinter {
    pub buf: String,
    pub indent: usize,
}

impl PrettyPrinter {
    pub fn new() -> (pp: Self)
        ensures
            pp.buf@ == Seq::<char>::empty(),
            pp.indent == 0,
    {
        Self { buf: String::new(), indent: 0 }
    }

    pub fn write(&mut self, s: &str)
        ensures
            final(self).buf@ == old(self).buf@ + s@,
            final(self).indent == old(self).indent,
    {
        self.buf.append(s);
    }

    pub fn newline(&mut self)
        ensures
            final(self).buf@ == old(self).buf@ + "\n"@,
            final(self).indent == old(self).indent,
    {
        self.buf.append("\n");
    }

    pub fn write_indent(&mut self)
        ensures
            final(self).buf@ == old(self).buf@ + indent_text(old(self).indent as nat),
            final(self).indent == old(self).indent,
    {
        let mut k: usize = 0;
        while k < self.indent
            invariant
                k <= self.indent,
                self.indent == old(self).indent,
                self.buf@ == old(self).buf@ + indent_text(k as nat),
            decreases self.indent - k,
        {
            self.buf.append("    ");
            k += 1;
            proof {
                assert(self.buf@ =~= old(self).buf@ + indent_text(k as nat));
            }
        }
    }

    pub fn indent(&mut self)
        requires
            old(self).indent < usize::MAX,
        ensures
            final(self).buf@ == old(self).buf@,
            final(self).indent == old(self).indent + 1,
    {
        self.indent += 1;
    }

    pub fn dedent(&mut self)
        requires
            old(self).indent > 0,
        ensures
            final(self).buf@ == old(self).buf@,
            final(self).indent == old(self).indent - 1,
    {
        self.indent -= 1;
    }

    /// `import a.b.c` followed by ` as alias` when the import has one.
    pub fn emit_import(&mut self, imp: &ImportDecl)
        ensures
            final(self).buf@ == old(self).buf@ + "import "@ + join_with(path_texts(imp.path@), "."@) + (match imp.alias {
                Some(a) => " as "@ + a.node@,
                None => Seq::empty(),
            }),
            final(self).indent == old(self).indent,
    {
        self.write("import ");
        let path = imp.full_path();
        self.write(path.as_str());
        if let Some(alias) = &imp.alias {
            self.write(" as ");
            self.write(alias.node.as_str());
        }
        proof {
            match &imp.alias {
                Some(a) => {
                    assert(self.buf@ =~= old(self).buf@ + "import "@ + join_with(path_texts(imp.path@), "."@) + (" as "@ + a.node@));
                },
                None => {},
            }
        }
    }

    pub fn emit_extern_rust(&mut self, ext: &ExternRustDecl)
        ensures
            final(self).buf@ == old(self).buf@ + "extern rust "@ + ext.crate_path.node@ + " as "@ + ext.alias.node@,
            final(self).indent == old(self).indent,
    {
        self.write("extern rust ");
        self.write(ext.crate_path.node.as_str());
        self.write(" as ");
        self.write(ext.alias.node.as_str());
    }

    /// `<T, U>` for a non-empty list of type parameters, nothing otherwise.
    pub fn emit_type_params(&mut self, type_params: &[Spanned<String>])
        ensures
            final(self).buf@ == old(self).buf@ + (if type_params@.len() == 0 {
                Seq::empty()
            } else {
                "<"@ + join_with(path_texts(type_params@), ", "@) + ">"@
            }),
            final(self).indent == old(self).indent,
    {
        if type_params.len() > 0 {
            self.write("<");
            let ghost base = self.buf@;
            let mut i: usize = 0;
            while i < type_params.len()
                invariant
                    i <= type_params.len(),
                    self.indent == old(self).indent,
                    self.buf@ == base + join_with(path_texts(type_params@).take(i as int), ", "@),
                decreases type_params.len() - i,
            {
                proof {
                    lemma_join_take_step(path_texts(type_params@), ", "@, i as int);
                }
                if i > 0 {
                    self.write(", ");
                }
                self.write(type_params[i].node.as_str());
                i += 1;
                proof {
                    assert(self.buf@ =~= base + join_with(path_texts(type_params@).take(i as int), ", "@));
                }
            }
            proof {
                assert(path_texts(type_params@).take(i as int) =~= path_texts(type_params@));
            }
            self.write(">");
        }
    }

    /// The parameters of a function, separated by `", "`.
    pub fn emit_params(&mut self, params: &[Param])
        ensures
            final(self).buf@ == old(self).buf@ + join_with(param_texts(params@), ", "@),
            final(self).indent == old(self).indent,
    {
        let ghost base = self.buf@;
        let ghost parts = param_texts(params@);
        let mut i: usize = 0;
        while i < params.len()
            invariant
                i <= params@.len(),
                parts == param_texts(params@),
                self.indent == old(self).indent,
                self.buf@ == base + join_with(parts.take(i as int), ", "@),
            decreases params@.len() - i,
        {
            proof {
                lemma_join_take_step(parts, ", "@, i as int);
            }
            let ghost before = self.buf@;
            if i > 0 {
                self.write(", ");
            }
            let ghost sep_done = self.buf@;
            let p = &params[i];
            let is_self_type = match &p.ty.node {
                TypeExpr::Named(n) => str_eq(n.as_str(), "Self"),
                _ => false,
            };
            let is_self = str_eq(p.name.node.as_str(), "self") && is_self_type;
            if is_self && p.is_mut {
                self.write("mut self");
            } else if is_self {
                self.write("self");
            } else {
                self.write(p.name.node.as_str());
                self.write(": ");
                self.emit_type_expr(&p.ty.node);
            }
            proof {
                assert(is_self_type == (p.ty.node.model() == TypeExprM::Named("Self"@)));
                assert(self.buf@ =~= sep_done + param_text(*p));
                assert(parts[i as int] == param_text(params@[i as int]));
                assert(self.buf@ =~= base + join_with(parts.take(i + 1), ", "@));
            }
            i += 1;
        }
        proof {
            assert(parts.take(i as int) =~= parts);
        }
    }

    /// `extern fn name(params)` and the return type, if there is one.
    pub fn emit_extern_fn(&mut self, ext: &ExternFnDecl)
        ensures
            final(self).buf@ == old(self).buf@ + extern_fn_text(*ext),
            final(self).indent == old(self).indent,
    {
        if ext.is_pub {
            self.write("pub ");
        }
        self.write("extern fn ");
        self.write(ext.name.node.as_str());
        self.write("(");
        self.emit_params(&ext.params);
        self.write(")");
        if let Some(ret) = &ext.return_type {
            self.write(" ");
            self.emit_type_expr(&ret.node);
        }
        proof {
            assert(self.buf@ =~= old(self).buf@ + extern_fn_text(*ext));
        }
    }

    /// The fields of a declaration, one per line at the current indentation.
    fn emit_field_lines(&mut self, fields: &Vec<Field>)
        ensures
            final(self).buf@ == old(self).buf@ + field_lines(fields@, old(self).indent as nat),
            final(self).indent == old(self).indent,
    {
        let ghost base = self.buf@;
        let mut i: usize = 0;
        while i < fields.len()
            invariant
                i <= fields@.len(),
                self.indent == old(self).indent,
                self.buf@ == base + field_lines(fields@.take(i as int), self.indent as nat),
            decreases fields@.len() - i,
        {
            let field = &fields[i];
            self.write_indent();
            self.write(field.name.node.as_str());
            self.write(": ");
            self.emit_type_expr(&field.ty.node);
            self.newline();
            proof {
                assert(fields@.take(i + 1).drop_last() =~= fields@.take(i as int));
                assert(self.buf@ =~= base + field_lines(fields@.take(i + 1), self.indent as nat));
            }
            i += 1;
        }
        proof {
            assert(fields@.take(i as int) =~= fields@);
        }
    }

    /// `error Name {`, its fields one level deeper, then `}`.
    pub fn emit_error_decl(&mut self, err: &ErrorDecl)
        requires
            old(self).indent < usize::MAX,
        ensures
            final(self).buf@ == old(self).buf@ + error_decl_text(*err, old(self).indent as nat),
            final(self).indent == old(self).indent,
    {
        if err.is_pub {
            self.write("pub ");
        }
        self.write("error ");
        self.write(err.name.node.as_str());
        self.write(" {");
        self.newline();
        self.indent();
        self.emit_field_lines(&err.fields);
        self.dedent();
        self.write("}");
        proof {
            assert(self.buf@ =~= old(self).buf@ + error_decl_text(*err, old(self).indent as nat));
        }
    }

    /// `enum Name<T> {`, each variant on its line one level deeper (with its
    /// fields in braces one level deeper again), then `}`.
    pub fn emit_enum_decl(&mut self, en: &EnumDecl)
        requires
            old(self).indent < usize::MAX - 1,
        ensures
            final(self).buf@ == old(self).buf@ + enum_decl_text(*en, old(self).indent as nat),
            final(self).indent == old(self).indent,
    {
        if en.is_pub {
            self.write("pub ");
        }
        self.write("enum ");
        self.write(en.name.node.as_str());
        self.emit_type_params(en.type_params.as_slice());
        self.write(" {");
        self.newline();
        self.indent();
        let ghost base = self.buf@;
        let ghost n = self.indent as nat;
        let mut i: usize = 0;
        while i < en.variants.len()
            invariant
                i <= en.variants@.len(),
                self.indent == old(self).indent + 1,
                n == self.indent as nat,
                self.indent < usize::MAX,
                self.buf@ == base + variant_lines(en.variants@.take(i as int), n),
            decreases en.variants@.len() - i,
        {
            let variant = &en.variants[i];
            let ghost before = self.buf@;
            self.write_indent();
            self.write(variant.name.node.as_str());
            if variant.fields.len() > 0 {
                self.write(" {");
                self.newline();
                self.indent();
                self.emit_field_lines(&variant.fields);
                self.dedent();
                self.write_indent();
                self.write("}");
            }
            self.newline();
            proof {
                assert(self.buf@ =~= before + variant_text(*variant, n));
                assert(en.variants@.take(i + 1).drop_last() =~= en.variants@.take(i as int));
                assert(self.buf@ =~= base + variant_lines(en.variants@.take(i + 1), n));
            }
            i += 1;
        }
        proof {
            assert(en.variants@.take(i as int) =~= en.variants@);
        }
        self.dedent();
        self.write("}");
        proof {
            assert(self.buf@ =~= old(self).buf@ + enum_decl_text(*en, old(self).indent as nat));
        }
    }

    /// Emit the source text of a type expression.
    #[verifier::loop_isolation(false)]
    pub fn emit_type_expr(&mut self, te: &TypeExpr)
        ensures
            final(self).buf@ == old(self).buf@ + te_text(te.model()),
            final(self).indent == old(self).indent,
        decreases te,
    {
        match te {
            TypeExpr::Named(name) => self.write(name.as_str()),
            TypeExpr::Array(elem) => {
                self.write("[");
                self.emit_type_expr(&elem.node);
                self.write("]");
                proof {
                    assert(self.buf@ =~= old(self).buf@ + te_text(te.model()));
                }
            },
            TypeExpr::Qualified { module, name } => {
                self.write(module.as_str());
                self.write(".");
                self.write(name.as_str());
                proof {
                    assert(self.buf@ =~= old(self).buf@ + te_text(te.model()));
                }
            },
            TypeExpr::Fn { params, return_type } => {
                let ghost ms = te.model()->params;
                self.write("fn(");
                let ghost base = self.buf@;
                let mut i: usize = 0;
                while i < params.len()
                    invariant
                        i <= params.len(),
                        ms.len() == params.len(),
                        self.indent == old(self).indent,
                        self.buf@ == base + te_join(ms.take(i as int)),
                    decreases params.len() - i,
                {
                    proof {
                        lemma_te_join_take_step(ms, i as int);
                        assert(decreases_to!(te => params@[i as int]));
                        assert(ms[i as int].node == params@[i as int].node.model());
                    }
                    if i > 0 {
                        self.write(", ");
                    }
                    self.emit_type_expr(&params[i].node);
                    i += 1;
                    proof {
                        assert(self.buf@ =~= base + te_join(ms.take(i as int)));
                    }
                }
                self.write(")");
                let is_void = match &return_type.node {
                    TypeExpr::Named(n) => str_eq(n.as_str(), "void"),
                    _ => false,
                };
                proof {
                    assert(ms.take(i as int) =~= ms);
                    assert(is_void == (return_type.node.model() == TypeExprM::Named("void"@)));
                }
                if !is_void {
                    self.write(" ");
                    self.emit_type_expr(&return_type.node);
                }
                proof {
                    assert(self.buf@ =~= old(self).buf@ + te_text(te.model()));
                }
            },
            TypeExpr::Generic { name, type_args } => {
                let ghost ms = te.model()->type_args;
                self.write(name.as_str());
                self.write("<");
                let ghost base = self.buf@;
                let mut i: usize = 0;
                while i < type_args.len()
                    invariant
                        i <= type_args.len(),
                        ms.len() == type_args.len(),
                        self.indent == old(self).indent,
                        self.buf@ == base + te_join(ms.take(i as int)),
                    decreases type_args.len() - i,
                {
                    proof {
                        lemma_te_join_take_step(ms, i as int);
                        assert(decreases_to!(te => type_args@[i as int]));
                        assert(ms[i as int].node == type_args@[i as int].node.model());
                    }
                    if i > 0 {
                        self.write(", ");
                    }
                    self.emit_type_expr(&type_args[i].node);
                    i += 1;
                    proof {
                        assert(self.buf@ =~= base + te_join(ms.take(i as int)));
                    }
                }
                self.write(">");
                proof {
                    assert(ms.take(i as int) =~= ms);
                    assert(self.buf@ =~= old(self).buf@ + te_text(te.model()));
                }
            },
            TypeExpr::Nullable(inner) => {
                self.emit_type_expr(&inner.node);
                self.write("?");
            },
            TypeExpr::Stream(inner) => {
                self.write("stream ");
                self.emit_type_expr(&inner.node);
            },
        }
    }
}


/// Binding strength of a binary operator; larger binds tighter.
pub open spec fn spec_binop_prec(op: BinOp) -> u8 {
    match op {
        BinOp::Or => 1,
        BinOp::And => 3,
        BinOp::BitOr => 5,
        BinOp::BitXor => 7,
        BinOp::BitAnd => 9,
        BinOp::Eq | BinOp::Neq => 11,
        BinOp::Lt | BinOp::Gt | BinOp::LtEq | BinOp::GtEq => 13,
        BinOp::Shl | BinOp::Shr => 15,
        BinOp::Add | BinOp::Sub => 17,
        BinOp::Mul | BinOp::Div | BinOp::Mod => 19,
    }
}

pub fn binop_prec(op: BinOp) -> (p: u8)
    ensures
        p == spec_binop_prec(op),
{
    match op {
        BinOp::Or => 1,
        BinOp::And => 3,
        BinOp::BitOr => 5,
        BinOp::BitXor => 7,
        BinOp::BitAnd => 9,
        BinOp::Eq | BinOp::Neq => 11,
        BinOp::Lt | BinOp::Gt | BinOp::LtEq | BinOp::GtEq => 13,
        BinOp::Shl | BinOp::Shr => 15,
        BinOp::Add | BinOp::Sub => 17,
        BinOp::Mul | BinOp::Div | BinOp::Mod => 19,
    }
}

/// The printer parenthesizes by the parser's precedence: an operator's printing
/// precedence is its left binding power in the expression parser, so two
/// operators compare the same way in both.
pub proof fn lemma_printer_parser_precedence_agree(a: BinOp, b: BinOp)
    ensures
        spec_binop_prec(a) == spec_infix_binding_power(a).0,
        (spec_binop_prec(a) < spec_binop_prec(b)) == (spec_infix_binding_power(a).0 < spec_infix_binding_power(b).0),
{
}

/// The source symbol of a binary operator.
pub open spec fn spec_binop_str(op: BinOp) -> Seq<char> {
    match op {
        BinOp::Add => "+"@,
        BinOp::Sub => "-"@,
        BinOp::Mul => "*"@,
        BinOp::Div => "/"@,
        BinOp::Mod => "%"@,
        BinOp::Eq => "=="@,
        BinOp::Neq => "!="@,
        BinOp::Lt => "<"@,
        BinOp::Gt => ">"@,
        BinOp::LtEq => "<="@,
        BinOp::GtEq => ">="@,
        BinOp::And => "&&"@,
        BinOp::Or => "||"@,
        BinOp::BitAnd => "&"@,
        BinOp::BitOr => "|"@,
        BinOp::BitXor => "^"@,
        BinOp::Shl => "<<"@,
        BinOp::Shr => ">>"@,
    }
}

pub fn binop_str(op: BinOp) -> (s: &'static str)
    ensures
        s@ == spec_binop_str(op),
{
    match op {
        BinOp::Add => "+",
        BinOp::Sub => "-",
        BinOp::Mul => "*",
        BinOp::Div => "/",
        BinOp::Mod => "%",
        BinOp::Eq => "==",
        BinOp::Neq => "!=",
        BinOp::Lt => "<",
        BinOp::Gt => ">",
        BinOp::LtEq => "<=",
        BinOp::GtEq => ">=",
        BinOp::And => "&&",
        BinOp::Or => "||",
        BinOp::BitAnd => "&",
        BinOp::BitOr => "|",
        BinOp::BitXor => "^",
        BinOp::Shl => "<<",
        BinOp::Shr => ">>",
    }
}

/// How one character is written inside a string literal.
pub open spec fn escape_char(c: char) -> Seq<char> {
    if c == '\\' {
        seq!['\\', '\\']
    } else if c == '"' {
        seq!['\\', '"']
    } else if c == '\n' {
        seq!['\\', 'n']
    } else if c == '\r' {
        seq!['\\', 'r']
    } else if c == '\t' {
        seq!['\\', 't']
    } else if c == '{' {
        seq!['{', '{']
    } else if c == '}' {
        seq!['}', '}']
    } else {
        seq![c]
    }
}

/// Each character of `s` escaped, in order.
pub open spec fn escape_seq(s: Seq<char>) -> Seq<char>
    decreases s.len(),
{
    if s.len() == 0 {
        Seq::empty()
    } else {
        escape_seq(s.drop_last()) + escape_char(s.last())
    }
}

/// Appends a character to a string.
///
/// Calls `String::push`, which the standard library documents as appending the
/// character to the end of the string.
#[verifier::external_body]
pub(crate) fn push_char(s: &mut String, c: char)
    ensures
        final(s)@ == old(s)@.push(c),
{
    s.push(c)
}

fn escape_with_braces(s: &str) -> (out: String)
    ensures
        out@ == escape_seq(s@),
{
    let cs = chars_of(s);
    let mut out = String::new();
    let mut i: usize = 0;
    while i < cs.len()
        invariant
            i <= cs.len(),
            cs@ == s@,
            out@ == escape_seq(cs@.take(i as int)),
        decreases cs.len() - i,
    {
        let c = cs[i];
        let ghost before = out@;
        if c == '\\' {
            push_char(&mut out, '\\');
            push_char(&mut out, '\\');
        } else if c == '"' {
            push_char(&mut out, '\\');
            push_char(&mut out, '"');
        } else if c == '\n' {
            push_char(&mut out, '\\');
            push_char(&mut out, 'n');
        } else if c == '\r' {
            push_char(&mut out, '\\');
            push_char(&mut out, 'r');
        } else if c == '\t' {
            push_char(&mut out, '\\');
            push_char(&mut out, 't');
        } else if c == '{' {
            push_char(&mut out, '{');
            push_char(&mut out, '{');
        } else if c == '}' {
            push_char(&mut out, '}');
            push_char(&mut out, '}');
        } else {
            push_char(&mut out, c);
        }
        proof {
            assert(out@ =~= before + escape_char(c));
            assert(cs@.take(i + 1).drop_last() =~= cs@.take(i as int));
        }
        i += 1;
    }
    proof {
        assert(cs@.take(i as int) =~= cs@);
    }
    out
}

/// Escape a string literal's content: backslash, quote and the control
/// characters `\n`, `\r`, `\t` get a backslash escape; braces are doubled.
pub fn escape_string(s: &str) -> (out: String)
    ensures
        out@ == escape_seq(s@),
{
    escape_with_braces(s)
}

/// Escape a literal part of an interpolated string; the same escapes as
/// `escape_string`, braces doubled so that they are not read as holes.
pub fn escape_interp(s: &str) -> (out: String)
    ensures
        out@ == escape_seq(s@),
{
    escape_with_braces(s)
}

/// An escaped string literal stays on one line: it holds no newline, carriage
/// return or tab character, and its length is at least that of the text.
pub proof fn lemma_escape_single_line(s: Seq<char>)
    ensures
        !escape_seq(s).contains('\n'),
        !escape_seq(s).contains('\r'),
        !escape_seq(s).contains('\t'),
        escape_seq(s).len() >= s.len(),
    decreases s.len(),
{
    if s.len() > 0 {
        lemma_escape_single_line(s.drop_last());
        let pre = escape_seq(s.drop_last());
        let e = escape_char(s.last());
        assert(escape_seq(s) == pre + e);
        assert forall|c: char| c == '\n' || c == '\r' || c == '\t' implies !(pre + e).contains(c) by {
            if (pre + e).contains(c) {
                let k = choose|k: int| 0 <= k < (pre + e).len() && (pre + e)[k] == c;
                if k < pre.len() {
                    assert(pre[k] == c);
                } else {
                    assert(e[k - pre.len()] == c);
                }
            }
        }
    }
}

// ── Visibility ──────────────────────────────────────────────────────

/// Whether printed text starts with the `pub ` modifier.
pub open spec fn starts_pub(t: Seq<char>) -> bool {
    t.len() >= 4 && t.subrange(0, 4) == "pub "@
}

/// Printing keeps a declaration's visibility: the printed error, enum or
/// extern function starts with `pub ` exactly when it is public, and a
/// public one prints as `pub ` followed by what the same declaration prints
/// when it is not public.
pub proof fn lemma_printing_keeps_visibility(err: ErrorDecl, en: EnumDecl, ext: ExternFnDecl, n: nat)
    ensures
        starts_pub(error_decl_text(err, n)) <==> err.is_pub,
        starts_pub(enum_decl_text(en, n)) <==> en.is_pub,
        starts_pub(extern_fn_text(ext)) <==> ext.is_pub,
        error_decl_text(ErrorDecl { is_pub: true, ..err }, n) == "pub "@ + error_decl_text(ErrorDecl { is_pub: false, ..err }, n),
        enum_decl_text(EnumDecl { is_pub: true, ..en }, n) == "pub "@ + enum_decl_text(EnumDecl { is_pub: false, ..en }, n),
        extern_fn_text(ExternFnDecl { is_pub: true, ..ext }) == "pub "@ + extern_fn_text(ExternFnDecl { is_pub: false, ..ext }),
{
    reveal_strlit("pub ");
    reveal_strlit("error ");
    reveal_strlit("enum ");
    reveal_strlit("extern fn ");
    let e = error_decl_text(err, n);
    let m = enum_decl_text(en, n);
    let x = extern_fn_text(ext);
    if err.is_pub {
        assert(e.subrange(0, 4) =~= "pub "@);
    } else {
        assert(e[0] == 'e');
        assert(e.len() >= 4 ==> e.subrange(0, 4)[0] == 'e');
        assert("pub "@[0] == 'p');
    }
    if en.is_pub {
        assert(m.subrange(0, 4) =~= "pub "@);
    } else {
        assert(m[0] == 'e');
        assert(m.len() >= 4 ==> m.subrange(0, 4)[0] == 'e');
        assert("pub "@[0] == 'p');
    }
    if ext.is_pub {
        assert(x.subrange(0, 4) =~= "pub "@);
    } else {
        assert(x[0] == 'e');
        assert(x.len() >= 4 ==> x.subrange(0, 4)[0] == 'e');
        assert("pub "@[0] == 'p');
    }
    assert(error_decl_text(ErrorDecl { is_pub: true, ..err }, n) =~= "pub "@ + error_decl_text(ErrorDecl { is_pub: false, ..err }, n));
    assert(enum_decl_text(EnumDecl { is_pub: true, ..en }, n) =~= "pub "@ + enum_decl_text(EnumDecl { is_pub: false, ..en }, n));
    assert(extern_fn_text(ExternFnDecl { is_pub: true, ..ext }) =~= "pub "@ + extern_fn_text(ExternFnDecl { is_pub: false, ..ext }));
}

} // verus!
