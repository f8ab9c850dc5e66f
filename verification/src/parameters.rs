//! The parameters of a function, all together.
use vstd::prelude::*;

use crate::attribute::{view_each, Entries, EntriesModel};
use crate::parameter::{Parameter, ParameterModel};
use crate::statement::{
    all_accepted, block_code, block_code_of, code, code_of, statements, view_block,
    view_statements, Stmt,
};
use crate::syntax::{get_ident, ArgModel, Error, ErrorModel, FnArg, Pat, PatModel, Place};
use crate::this::{view_class, KindModel, ThisKind, ThisModel, ThisParameter};
use crate::types::{lifetime_text, mutability_text, write_lifetime, write_mutability};
use crate::types::{Type, TypeModel};
use crate::views::{lemma_view_all_push, view_all, view_option, view_result};

verus! {

/// The parameters of a function: those that are read from the arguments of the call, the receiver
/// with its name, the names that the parameters bind, and how many values the call has to give and
/// how many more it may give.
#[derive(Debug)]
pub struct Parameters {
    pub parameters: Vec<Parameter>,
    pub this: Option<(ThisParameter, String)>,
    pub idents: Vec<String>,
    pub nargs: (usize, usize),
}

/// What [`Parameters`] are.
pub struct ParametersModel {
    pub parameters: Seq<ParameterModel>,
    pub this: Option<(ThisModel, Seq<char>)>,
    pub idents: Seq<Seq<char>>,
    pub nargs: (nat, nat),
}

impl View for Parameters {
    type V = ParametersModel;

    open spec fn view(&self) -> ParametersModel {
        ParametersModel {
            parameters: view_all(self.parameters@),
            this: match self.this {
                Some((this, ident)) => Some((this@, ident@)),
                None => None,
            },
            idents: view_all(self.idents@),
            nargs: (self.nargs.0 as nat, self.nargs.1 as nat),
        }
    }
}

/// What an argument of a function stands for.
pub enum ItemModel {
    This(ThisModel),
    Parameter(ParameterModel),
}

/// What an argument stands for, or the error in it, given what its `#[ion(...)]` attributes hold
/// and the type of the class.
pub open spec fn item_of(
    arg: ArgModel,
    read: Seq<EntriesModel>,
    class: Option<TypeModel>,
) -> Option<Result<ItemModel, ErrorModel>> {
    match ThisModel::of(arg, read, class) {
        None => None,
        Some(Err(e)) => Some(Err(e)),
        Some(Ok(Some(this))) => Some(Ok(ItemModel::This(this))),
        Some(Ok(None)) => match arg {
            ArgModel::Receiver(_) => None,
            ArgModel::Typed(arg) => match ParameterModel::of(arg, read) {
                None => None,
                Some(Err(e)) => Some(Err(e)),
                Some(Ok(parameter)) => Some(Ok(ItemModel::Parameter(parameter))),
            },
        },
    }
}

/// What each of some arguments stands for, or the error in the first that holds one. There is
/// neither where an argument before it is nothing at all.
pub open spec fn items_of(
    args: Seq<ArgModel>,
    read: Seq<Seq<EntriesModel>>,
    class: Option<TypeModel>,
) -> Option<Result<Seq<ItemModel>, ErrorModel>>
    decreases args.len(),
{
    if args.len() == 0 {
        Some(Ok(Seq::empty()))
    } else {
        match items_of(args.drop_last(), read.drop_last(), class) {
            None => None,
            Some(Err(e)) => Some(Err(e)),
            Some(Ok(items)) => match item_of(args.last(), read.last(), class) {
                None => None,
                Some(Err(e)) => Some(Err(e)),
                Some(Ok(item)) => Some(Ok(items.push(item))),
            },
        }
    }
}

/// The parameters among what arguments stand for.
pub open spec fn parameters_of(items: Seq<ItemModel>) -> Seq<ParameterModel>
    decreases items.len(),
{
    if items.len() == 0 {
        Seq::empty()
    } else {
        match items.last() {
            ItemModel::Parameter(parameter) => parameters_of(items.drop_last()).push(parameter),
            ItemModel::This(_) => parameters_of(items.drop_last()),
        }
    }
}

/// The last receiver that binds a name, with that name.
pub open spec fn this_of(items: Seq<ItemModel>) -> Option<(ThisModel, Seq<char>)>
    decreases items.len(),
{
    if items.len() == 0 {
        None
    } else {
        match items.last() {
            ItemModel::This(this) => match this.pat.ident() {
                Some(ident) => Some((this, ident)),
                None => this_of(items.drop_last()),
            },
            ItemModel::Parameter(_) => this_of(items.drop_last()),
        }
    }
}

/// The names that parameters bind.
pub open spec fn idents_of(parameters: Seq<ParameterModel>) -> Seq<Seq<char>>
    decreases parameters.len(),
{
    if parameters.len() == 0 {
        Seq::empty()
    } else {
        match parameters.last().pat().ident() {
            Some(ident) => idents_of(parameters.drop_last()).push(ident),
            None => idents_of(parameters.drop_last()),
        }
    }
}

/// How many values parameters need.
pub open spec fn required(parameters: Seq<ParameterModel>) -> nat
    decreases parameters.len(),
{
    if parameters.len() == 0 {
        0
    } else {
        required(parameters.drop_last()) + (match parameters.last() {
            ParameterModel::Regular { option: None, .. } => 1nat,
            _ => 0nat,
        })
    }
}

/// How many values parameters can do without.
pub open spec fn optional(parameters: Seq<ParameterModel>) -> nat
    decreases parameters.len(),
{
    if parameters.len() == 0 {
        0
    } else {
        optional(parameters.drop_last()) + (match parameters.last() {
            ParameterModel::Regular { option: Some(_), .. } => 1nat,
            _ => 0nat,
        })
    }
}

/// How many values parameters take up one by one.
pub open spec fn width(parameters: Seq<ParameterModel>) -> nat
    decreases parameters.len(),
{
    if parameters.len() == 0 {
        0
    } else {
        width(parameters.drop_last()) + parameters.last().width()
    }
}

impl ParametersModel {
    /// The names are those that the parameters bind, the values are counted, and the receiver is
    /// known by the name that it binds.
    pub open spec fn well_formed(self) -> bool {
        &&& self.idents == idents_of(self.parameters)
        &&& self.nargs == (required(self.parameters), optional(self.parameters))
        &&& self.this matches Some((this, ident)) ==> this.pat.ident() == Some(ident)
    }

    /// The parameters that arguments stand for, by what each of them stands for.
    pub open spec fn of_items(items: Seq<ItemModel>) -> ParametersModel {
        let parameters = parameters_of(items);
        ParametersModel {
            parameters,
            this: this_of(items),
            idents: idents_of(parameters),
            nargs: (required(parameters), optional(parameters)),
        }
    }

    /// The parameters that arguments stand for, or the first error in them, given what their
    /// `#[ion(...)]` attributes hold and the type of the class.
    pub open spec fn of(
        args: Seq<ArgModel>,
        read: Seq<Seq<EntriesModel>>,
        class: Option<TypeModel>,
    ) -> Option<Result<ParametersModel, ErrorModel>> {
        match items_of(args, read, class) {
            None => None,
            Some(Err(e)) => Some(Err(e)),
            Some(Ok(items)) => Some(Ok(ParametersModel::of_items(items))),
        }
    }
}

/// The `#[ion(...)]` attributes of each of some arguments can be read as holding what is given for
/// them.
pub open spec fn args_read(args: Seq<ArgModel>, read: Seq<Seq<EntriesModel>>) -> bool {
    &&& args.len() == read.len()
    &&& forall|i: int| 0 <= i < args.len() ==> (#[trigger] args[i]).reads(read[i])
}

/// An argument of a function of the generated code, and the place that it is put at.
#[derive(Debug)]
pub struct Argument {
    pub text: String,
    pub span: Place,
}

/// What an [`Argument`] is.
pub struct ArgumentModel {
    pub text: Seq<char>,
    pub span: Place,
}

impl View for Argument {
    type V = ArgumentModel;

    open spec fn view(&self) -> ArgumentModel {
        ArgumentModel { text: self.text@, span: self.span }
    }
}

/// Parses a text as an argument of a function, with `syn::parse_str::<syn::FnArg>`, and tells
/// whether there is no error.
///
/// Trusted: nothing is claimed of the answer. Inside of a macro the compiler splits the text into
/// tokens, and outside of one `proc_macro2` does, and they may differ.
#[verifier::external_body]
pub(crate) fn is_fn_arg(text: &str) -> (r: bool) {
    syn::parse_str::<syn::FnArg>(text).is_ok()
}

/// The arguments, if each of them fits.
pub open spec fn accepted_args(args: Seq<ArgumentModel>, fits: Seq<bool>) -> Option<
    Seq<ArgumentModel>,
> {
    if forall|i: int| 0 <= i < args.len() ==> #[trigger] fits[i] {
        Some(args)
    } else {
        None
    }
}

/// What arguments are, where there are any.
pub open spec fn view_args(r: Option<Vec<Argument>>) -> Option<Seq<ArgumentModel>> {
    match r {
        Some(args) => Some(view_all(args@)),
        None => None,
    }
}

/// The arguments, if each of them fits.
pub fn accept_args(args: Vec<Argument>, fits: &Vec<bool>) -> (r: Option<Vec<Argument>>)
    requires
        args@.len() == fits@.len(),
    ensures
        view_args(r) == accepted_args(view_all(args@), fits@),
{
    let mut i: usize = 0;
    while i < fits.len()
        invariant
            i <= fits@.len(),
            args@.len() == fits@.len(),
            forall|k: int| 0 <= k < i ==> #[trigger] fits@[k],
        decreases fits@.len() - i,
    {
        if !fits[i] {
            assert(!fits@[i as int]);
            return None;
        }
        i += 1;
    }
    Some(args)
}

/// The argument `pattern: Type`, at the place of the pattern.
pub open spec fn argument(pat: PatModel, ty: Seq<char>) -> ArgumentModel {
    ArgumentModel { text: pat.text() + ": "@ + ty, span: pat.span() }
}

/// The arguments that parameters are.
pub open spec fn parameter_args(parameters: Seq<ParameterModel>) -> Seq<ArgumentModel> {
    parameters.map_values(
        |parameter: ParameterModel| argument(parameter.pat(), parameter.ty().text()),
    )
}

impl ParametersModel {
    /// The texts of the statements that read the parameters. Each parameter that is converted from
    /// one value takes the next one. The literals hold the messages for values that are missing.
    pub open spec fn statement_texts(self, literals: Seq<Seq<char>>) -> Seq<Seq<char>> {
        Seq::new(
            self.parameters.len(),
            |i: int|
                self.parameters[i].statement_text(width(self.parameters.take(i)), literals[i]),
        )
    }

    /// Each literal holds the message for a value of its parameter that is missing, where the
    /// parameter is converted from one value.
    pub open spec fn are_reported_by(self, literals: Seq<Seq<char>>) -> bool {
        forall|i: int|
            0 <= i < self.parameters.len() ==> (#[trigger] self.parameters[i]).is_reported_by(
                width(self.parameters.take(i)),
                literals[i],
            )
    }

    /// The statements that read the parameters, or the first error, given the literals and the
    /// error in each of the statements, if there is one.
    pub open spec fn statements(
        self,
        literals: Seq<Seq<char>>,
        errors: Seq<Option<ErrorModel>>,
    ) -> Result<Seq<Seq<char>>, ErrorModel> {
        all_accepted(self.statement_texts(literals), errors)
    }

    /// The code that gets the receiver, or the first error, given the errors in its statements:
    /// `error` is that in the declaration of an asynchronous class method's receiver.
    pub open spec fn this_statements(
        self,
        is_class: bool,
        is_async: bool,
        error: Option<ErrorModel>,
        errors: Seq<Option<ErrorModel>>,
    ) -> Result<Seq<char>, ErrorModel> {
        match self.this {
            Some((this, _)) => if is_class && is_async {
                block_code_of(this.async_class_statements(error, errors))
            } else {
                code_of(this.statements(is_class, errors))
            },
            None => Ok(Seq::empty()),
        }
    }

    /// The argument that the receiver is, if there is one.
    pub open spec fn this_args(self) -> Seq<ArgumentModel> {
        match self.this {
            Some((this, _)) => seq![
                match this.kind {
                    KindModel::Ref(lifetime, mutability) => argument(
                        this.pat,
                        "&"@ + lifetime_text(lifetime) + mutability_text(mutability)
                            + this.ty.text(),
                    ),
                    KindModel::Owned => argument(this.pat, this.ty.text()),
                },
            ],
            None => Seq::empty(),
        }
    }

    /// The arguments of the function that takes the parameters: the receiver comes first.
    pub open spec fn args(self) -> Seq<ArgumentModel> {
        self.this_args() + parameter_args(self.parameters)
    }
}

/// What the `#[ion(...)]` attributes of each of some arguments hold.
pub open spec fn view_reads(s: Seq<Vec<Entries>>) -> Seq<Seq<EntriesModel>> {
    s.map_values(|v: Vec<Entries>| view_each(v@))
}

/// What parameters are, where there are any or an error in the place of them.
pub open spec fn view_parse(r: Option<Result<Parameters, Error>>) -> Option<
    Result<ParametersModel, ErrorModel>,
> {
    match r {
        Some(r) => Some(view_result(r)),
        None => None,
    }
}

proof fn lemma_items_settled(
    args: Seq<ArgModel>,
    read: Seq<Seq<EntriesModel>>,
    class: Option<TypeModel>,
    n: int,
)
    requires
        0 <= n <= args.len(),
        args.len() == read.len(),
        !(items_of(args.take(n), read.take(n), class) matches Some(Ok(_))),
    ensures
        items_of(args, read, class) == items_of(args.take(n), read.take(n), class),
    decreases args.len(),
{
    if n < args.len() {
        assert(args.drop_last().take(n) =~= args.take(n));
        assert(read.drop_last().take(n) =~= read.take(n));
        lemma_items_settled(args.drop_last(), read.drop_last(), class, n);
    } else {
        assert(args.take(n) =~= args);
        assert(read.take(n) =~= read);
    }
}

/// Reads the `#[ion(...)]` attributes of each of some arguments.
fn read_each(args: &Vec<FnArg>) -> (r: Vec<Vec<Entries>>)
    ensures
        args_read(view_all(args@), view_reads(r@)),
{
    let mut reads: Vec<Vec<Entries>> = Vec::new();
    let mut i: usize = 0;
    while i < args.len()
        invariant
            i <= args@.len(),
            reads@.len() == i,
            forall|k: int| 0 <= k < i ==> args@[k]@.reads(view_each(#[trigger] reads@[k]@)),
        decreases args@.len() - i,
    {
        reads.push(args[i].read_attributes());
        i += 1;
    }
    proof {
        let all = view_all(args@);
        assert forall|k: int| 0 <= k < all.len() implies (#[trigger] all[k]).reads(
            view_reads(reads@)[k],
        ) by {
            assert(args@[k]@.reads(view_each(reads@[k]@)));
        }
    }
    reads
}

fn write_argument(pat: &Pat, ty: &str) -> (r: Argument)
    ensures
        r@ == argument(pat@, ty@),
{
    let mut text = pat.text();
    text.append(": ");
    text.append(ty);
    Argument { text, span: pat.span() }
}

impl Parameters {
    /// Takes in what one more argument stands for.
    fn push(&mut self, parameter: Parameter)
        requires
            old(self)@.nargs.0 < usize::MAX,
            old(self)@.nargs.1 < usize::MAX,
            old(self)@.well_formed(),
        ensures
            final(self)@.parameters == old(self)@.parameters.push(parameter@),
            final(self)@.this == old(self)@.this,
            final(self)@.well_formed(),
            final(self).nargs.0 + final(self).nargs.1 <= old(self).nargs.0 + old(self).nargs.1 + 1,
    {
        proof {
            let more = self@.parameters.push(parameter@);
            assert(more.drop_last() =~= self@.parameters);
            lemma_view_all_push(self.parameters@, parameter);
        }
        match &parameter {
            Parameter::Regular { option, .. } => {
                if option.is_none() {
                    self.nargs.0 += 1;
                } else {
                    self.nargs.1 += 1;
                }
            },
            _ => {},
        }
        let ident = match &parameter {
            Parameter::Regular { pat, .. } => get_ident(pat),
            Parameter::VarArgs { pat, .. } => get_ident(pat),
            Parameter::Context(pat, _) => get_ident(pat),
            Parameter::Arguments(pat, _) => get_ident(pat),
        };
        match ident {
            Some(ident) => {
                proof {
                    lemma_view_all_push(self.idents@, ident);
                }
                self.idents.push(ident);
            },
            None => {},
        }
        self.parameters.push(parameter);
    }

    /// The parameters that arguments stand for, given what their `#[ion(...)]` attributes hold and
    /// the type of the class; nothing, where an argument is nothing at all.
    pub fn from_read(args: &Vec<FnArg>, read: &Vec<Vec<Entries>>, ty: Option<&Type>) -> (r: Option<
        Result<Parameters, Error>,
    >)
        requires
            args@.len() == read@.len(),
        ensures
            view_parse(r) == ParametersModel::of(
                view_all(args@),
                view_reads(read@),
                view_class(ty),
            ),
            r matches Some(Ok(parsed)) ==> parsed@.well_formed(),
    {
        let ghost all = view_all(args@);
        let ghost reads = view_reads(read@);
        let ghost class = view_class(ty);
        let mut parsed = Parameters {
            parameters: Vec::new(),
            this: None,
            idents: Vec::new(),
            nargs: (0, 0),
        };
        let ghost mut items: Seq<ItemModel> = Seq::empty();
        let mut i: usize = 0;
        assert(parsed@.parameters =~= Seq::empty());
        assert(parsed@.idents =~= Seq::empty());
        while i < args.len()
            invariant
                i <= args@.len(),
                args@.len() == read@.len(),
                all == view_all(args@),
                reads == view_reads(read@),
                class == view_class(ty),
                items_of(all.take(i as int), reads.take(i as int), class) == Some(
                    Ok::<Seq<ItemModel>, ErrorModel>(items),
                ),
                parsed@ == ParametersModel::of_items(items),
                parsed@.well_formed(),
                parsed.nargs.0 + parsed.nargs.1 <= i,
            decreases args@.len() - i,
        {
            let ghost n = i + 1;
            assert(all.take(n).drop_last() =~= all.take(i as int));
            assert(reads.take(n).drop_last() =~= reads.take(i as int));
            assert(all.take(n).last() == args[i as int]@);
            assert(reads.take(n).last() == view_each(read[i as int]@));
            let arg = &args[i];
            if !ThisParameter::is_defined(arg, ty) {
                proof {
                    lemma_items_settled(all, reads, class, n);
                }
                return None;
            }
            match ThisParameter::from_read(arg, &read[i], ty) {
                Ok(Some(this_param)) => {
                    proof {
                        let more = items.push(ItemModel::This(this_param@));
                        assert(more.drop_last() =~= items);
                        items = more;
                    }
                    match get_ident(&this_param.pat) {
                        Some(ident) => {
                            parsed.this = Some((this_param, ident));
                        },
                        None => {},
                    }
                },
                Err(e) => {
                    proof {
                        lemma_items_settled(all, reads, class, n);
                    }
                    return Some(Err(e));
                },
                Ok(None) => {
                    let typed = match arg {
                        FnArg::Typed(typed) => typed,
                        FnArg::Receiver(_) => vstd::pervasive::unreached(),
                    };
                    if !Parameter::is_readable(typed, &read[i]) {
                        proof {
                            lemma_items_settled(all, reads, class, n);
                        }
                        return None;
                    }
                    match Parameter::from_read(typed, &read[i]) {
                        Ok(parameter) => {
                            proof {
                                let more = items.push(ItemModel::Parameter(parameter@));
                                assert(more.drop_last() =~= items);
                                items = more;
                            }
                            parsed.push(parameter);
                        },
                        Err(e) => {
                            proof {
                                lemma_items_settled(all, reads, class, n);
                            }
                            return Some(Err(e));
                        },
                    }
                },
            }
            i += 1;
        }
        assert(all.take(i as int) =~= all);
        assert(reads.take(i as int) =~= reads);
        Some(Ok(parsed))
    }

    /// The parameters that arguments stand for, given the type of the class. However the attributes
    /// are read, no argument may be nothing at all.
    pub fn parse(parameters: &Vec<FnArg>, ty: Option<&Type>) -> (r: Result<Parameters, Error>)
        requires
            forall|read: Seq<Seq<EntriesModel>>| #[trigger]
                args_read(view_all(parameters@), read) ==> ParametersModel::of(
                    view_all(parameters@),
                    read,
                    view_class(ty),
                ) is Some,
        ensures
            exists|read: Seq<Seq<EntriesModel>>|
                args_read(view_all(parameters@), read) && Some(view_result(r))
                    == #[trigger] ParametersModel::of(view_all(parameters@), read, view_class(ty)),
            r matches Ok(parsed) ==> parsed@.well_formed(),
    {
        let read = read_each(parameters);
        assert(args_read(view_all(parameters@), view_reads(read@)));
        match Parameters::from_read(parameters, &read, ty) {
            Some(r) => r,
            None => vstd::pervasive::unreached(),
        }
    }

    /// The parameters that arguments stand for, given the type of the class; nothing, where an
    /// argument is nothing at all.
    pub fn checked_parse(parameters: &Vec<FnArg>, ty: Option<&Type>) -> (r: Option<
        Result<Parameters, Error>,
    >)
        ensures
            exists|read: Seq<Seq<EntriesModel>>|
                args_read(view_all(parameters@), read) && view_parse(r)
                    == #[trigger] ParametersModel::of(view_all(parameters@), read, view_class(ty)),
            r matches Some(Ok(parsed)) ==> parsed@.well_formed(),
    {
        let read = read_each(parameters);
        assert(args_read(view_all(parameters@), view_reads(read@)));
        Parameters::from_read(parameters, &read, ty)
    }

    /// Writes the statements that read the parameters. The literals hold the messages for values
    /// that are missing.
    pub fn statement_texts(&self, literals: &Vec<String>) -> (r: Vec<String>)
        requires
            literals@.len() == self.parameters@.len(),
        ensures
            view_all(r@) == self@.statement_texts(view_all(literals@)),
    {
        let ghost all = self@.parameters;
        let ghost texts = self@.statement_texts(view_all(literals@));
        let mut done: Vec<String> = Vec::new();
        let mut index: usize = 0;
        let mut i: usize = 0;
        assert(view_all(done@) =~= texts.take(0));
        while i < self.parameters.len()
            invariant
                i <= self.parameters@.len(),
                literals@.len() == self.parameters@.len(),
                all == view_all(self.parameters@),
                all == self@.parameters,
                texts == self@.statement_texts(view_all(literals@)),
                index == width(all.take(i as int)),
                index <= i,
                view_all(done@) == texts.take(i as int),
            decreases self.parameters@.len() - i,
        {
            let text = self.parameters[i].statement_text(index, literals[i].as_str());
            proof {
                assert(all.take(i + 1).drop_last() =~= all.take(i as int));
                lemma_view_all_push(done@, text);
                assert(texts.take(i + 1) =~= texts.take(i as int).push(text@));
            }
            done.push(text);
            if self.parameters[i].is_regular() {
                index += 1;
            }
            i += 1;
        }
        assert(texts.take(i as int) =~= texts);
        done
    }

    /// Literals with the messages for values that are missing.
    fn missing_literals(&self) -> (r: Vec<String>)
        ensures
            r@.len() == self.parameters@.len(),
            self@.are_reported_by(view_all(r@)),
    {
        let ghost all = self@.parameters;
        let mut literals: Vec<String> = Vec::new();
        let mut index: usize = 0;
        let mut i: usize = 0;
        while i < self.parameters.len()
            invariant
                i <= self.parameters@.len(),
                all == view_all(self.parameters@),
                all == self@.parameters,
                index == width(all.take(i as int)),
                index <= i,
                literals@.len() == i,
                forall|k: int|
                    0 <= k < i ==> (#[trigger] all[k]).is_reported_by(
                        width(all.take(k)),
                        literals@[k]@,
                    ),
            decreases self.parameters@.len() - i,
        {
            literals.push(self.parameters[i].missing_literal(index));
            assert(all.take(i + 1).drop_last() =~= all.take(i as int));
            if self.parameters[i].is_regular() {
                index += 1;
            }
            i += 1;
        }
        literals
    }

    /// The statements that read the parameters from the arguments of the call.
    pub fn to_statements(&self) -> (r: Result<Vec<Stmt>, Error>)
        ensures
            exists|literals: Seq<Seq<char>>, errors: Seq<Option<ErrorModel>>|
                self@.are_reported_by(literals) && view_statements(r)
                    == #[trigger] self@.statements(literals, errors),
    {
        let literals = self.missing_literals();
        let texts = self.statement_texts(&literals);
        let r = statements(&texts);
        proof {
            let errors = choose|errors: Seq<Option<ErrorModel>>|
                view_statements(r) == #[trigger] all_accepted(view_all(texts@), errors);
            assert(view_statements(r) == self@.statements(view_all(literals@), errors));
        }
        r
    }

    /// The name of the receiver.
    pub fn get_this_ident(&self) -> (r: Option<String>)
        ensures
            view_option(r) == (match self@.this {
                Some((_, ident)) => Some(ident),
                None => None,
            }),
    {
        match &self.this {
            Some((_, ident)) => Some(ident.clone()),
            None => None,
        }
    }

    /// The code that gets the receiver.
    pub fn to_this_statements(&self, is_class: bool, is_async: bool) -> (r: Result<String, Error>)
        ensures
            exists|error: Option<ErrorModel>, errors: Seq<Option<ErrorModel>>|
                view_result(r) == #[trigger] self@.this_statements(
                    is_class,
                    is_async,
                    error,
                    errors,
                ),
    {
        match &self.this {
            Some((this, _)) => {
                if is_class && is_async {
                    let got = this.to_async_class_statements();
                    proof {
                        let (error, errors) = choose|
                            error: Option<ErrorModel>,
                            errors: Seq<Option<ErrorModel>>,
                        |
                            view_block(got) == #[trigger] this@.async_class_statements(
                                error,
                                errors,
                            );
                        assert(block_code_of(view_block(got)) == self@.this_statements(
                            is_class,
                            is_async,
                            error,
                            errors,
                        ));
                    }
                    block_code(got)
                } else {
                    let got = this.to_statements(is_class);
                    proof {
                        let errors = choose|errors: Seq<Option<ErrorModel>>|
                            view_statements(got) == #[trigger] this@.statements(is_class, errors);
                        assert(code_of(view_statements(got)) == self@.this_statements(
                            is_class,
                            is_async,
                            None,
                            errors,
                        ));
                    }
                    code(got)
                }
            },
            None => {
                assert(self@.this_statements(is_class, is_async, None, Seq::empty()) is Ok);
                Ok(String::new())
            },
        }
    }

    /// The arguments of the function that takes the parameters.
    pub fn to_args(&self) -> (r: Vec<Argument>)
        ensures
            view_all(r@) == self@.args(),
    {
        let ghost all = self@.parameters;
        let ghost first = self@.this_args();
        let mut args: Vec<Argument> = Vec::new();
        match &self.this {
            Some((this, _)) => {
                let mut ty = String::new();
                match &this.kind {
                    ThisKind::Ref(lifetime, mutability) => {
                        ty.append("&");
                        ty.append(write_lifetime(lifetime).as_str());
                        ty.append(write_mutability(*mutability).as_str());
                    },
                    ThisKind::Owned => {},
                }
                ty.append(this.ty.text().as_str());
                args.push(write_argument(&this.pat, ty.as_str()));
            },
            None => {},
        }
        assert(view_all(args@) =~= first);
        let mut i: usize = 0;
        assert(first + parameter_args(all).take(0) =~= first);
        while i < self.parameters.len()
            invariant
                i <= self.parameters@.len(),
                all == view_all(self.parameters@),
                view_all(args@) == first + parameter_args(all).take(i as int),
            decreases self.parameters@.len() - i,
        {
            let (pat, ty): (&Pat, &Type) = match &self.parameters[i] {
                Parameter::Regular { pat, ty, .. } => (pat, ty),
                Parameter::VarArgs { pat, ty, .. } => (pat, ty),
                Parameter::Context(pat, ty) => (pat, ty),
                Parameter::Arguments(pat, ty) => (pat, ty),
            };
            let arg = write_argument(pat, ty.text().as_str());
            proof {
                lemma_view_all_push(args@, arg);
                assert(first + parameter_args(all).take(i + 1) =~= (first + parameter_args(
                    all,
                ).take(i as int)).push(arg@));
            }
            args.push(arg);
            i += 1;
        }
        assert(parameter_args(all).take(i as int) =~= parameter_args(all));
        args
    }

    /// The arguments of the function that takes the parameters, if each of them parses as one.
    pub fn checked_to_args(&self) -> (r: Option<Vec<Argument>>)
        ensures
            exists|fits: Seq<bool>|
                view_args(r) == #[trigger] accepted_args(self@.args(), fits),
    {
        let args = self.to_args();
        let mut fits: Vec<bool> = Vec::new();
        let mut i: usize = 0;
        while i < args.len()
            invariant
                i <= args@.len(),
                fits@.len() == i,
            decreases args@.len() - i,
        {
            fits.push(is_fn_arg(args[i].text.as_str()));
            i += 1;
        }
        accept_args(args, &fits)
    }
}

} // verus!
