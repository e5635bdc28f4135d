//! The command line.
use crate::text::{join, same_text, text_of, texts};
use vstd::prelude::*;

verus! {

/// What the command line asks for.
#[derive(Debug)]
pub struct Args {
    pub list_devices: bool,
    pub input_device: Option<String>,
    pub output_device: Option<String>,
}

/// `Args` by their contents.
pub struct ArgsModel {
    pub list_devices: bool,
    pub input_device: Option<Seq<char>>,
    pub output_device: Option<Seq<char>>,
}

impl View for Args {
    type V = ArgsModel;

    open spec fn view(&self) -> ArgsModel {
        ArgsModel {
            list_devices: self.list_devices,
            input_device: text_of(self.input_device),
            output_device: text_of(self.output_device),
        }
    }
}

/// What is wrong with the command line.
#[derive(Debug)]
pub enum ArgError {
    /// `--input-device` is the last argument.
    NoInputDevice,
    /// `--output-device` is the last argument.
    NoOutputDevice,
    /// The argument is no option.
    Unknown(String),
}

/// An `ArgError` by its contents.
pub enum ArgErrorModel {
    NoInputDevice,
    NoOutputDevice,
    Unknown(Seq<char>),
}

impl View for ArgError {
    type V = ArgErrorModel;

    open spec fn view(&self) -> ArgErrorModel {
        match self {
            ArgError::NoInputDevice => ArgErrorModel::NoInputDevice,
            ArgError::NoOutputDevice => ArgErrorModel::NoOutputDevice,
            ArgError::Unknown(arg) => ArgErrorModel::Unknown(arg@),
        }
    }
}

impl ArgErrorModel {
    /// The text that tells a user of the error.
    pub open spec fn text(self) -> Seq<char> {
        match self {
            ArgErrorModel::NoInputDevice => "--input-device requires a value"@,
            ArgErrorModel::NoOutputDevice => "--output-device requires a value"@,
            ArgErrorModel::Unknown(arg) => "unknown argument: "@ + arg
                + "\n\nUsage: walkie [--list-devices] [--input-device <NAME>] [--output-device <NAME>]"@,
        }
    }
}

impl ArgError {
    /// The text that tells a user of the error.
    pub fn message(&self) -> (r: String)
        ensures
            r@ == self@.text(),
    {
        match self {
            ArgError::NoInputDevice => "--input-device requires a value".to_owned(),
            ArgError::NoOutputDevice => "--output-device requires a value".to_owned(),
            ArgError::Unknown(arg) => {
                let start = join("unknown argument: ", arg.as_str());
                join(
                    start.as_str(),
                    "\n\nUsage: walkie [--list-devices] [--input-device <NAME>] [--output-device <NAME>]",
                )
            },
        }
    }
}

impl ArgsModel {
    /// The command line without arguments.
    pub open spec fn none() -> ArgsModel {
        ArgsModel { list_devices: false, input_device: None, output_device: None }
    }

    /// What `args` ask for after what came before them. A device option takes the argument after
    /// it as its value, whatever that is, and a later one stands for an earlier one.
    pub open spec fn followed_by(self, args: Seq<Seq<char>>) -> Result<ArgsModel, ArgErrorModel>
        decreases args.len(),
    {
        if args.len() == 0 {
            Ok(self)
        } else if args[0] == "--list-devices"@ {
            ArgsModel { list_devices: true, ..self }.followed_by(args.skip(1))
        } else if args[0] == "--input-device"@ {
            if args.len() < 2 {
                Err(ArgErrorModel::NoInputDevice)
            } else {
                ArgsModel { input_device: Some(args[1]), ..self }.followed_by(args.skip(2))
            }
        } else if args[0] == "--output-device"@ {
            if args.len() < 2 {
                Err(ArgErrorModel::NoOutputDevice)
            } else {
                ArgsModel { output_device: Some(args[1]), ..self }.followed_by(args.skip(2))
            }
        } else {
            Err(ArgErrorModel::Unknown(args[0]))
        }
    }
}

/// A result of parsing by its contents.
pub open spec fn parsed_model(r: Result<Args, ArgError>) -> Result<ArgsModel, ArgErrorModel> {
    match r {
        Ok(args) => Ok(args@),
        Err(e) => Err(e@),
    }
}

/// Parses the arguments after the program's name.
pub fn parse_args(args: &Vec<String>) -> (r: Result<Args, ArgError>)
    ensures
        parsed_model(r) == ArgsModel::none().followed_by(texts(args@)),
{
    let mut parsed = Args { list_devices: false, input_device: None, output_device: None };
    let mut i: usize = 0;
    let ghost all = texts(args@);
    assert(all.skip(0) == all);
    while i < args.len()
        invariant
            i <= args@.len(),
            all == texts(args@),
            all.len() == args@.len(),
            ArgsModel::none().followed_by(all) == parsed@.followed_by(all.skip(i as int)),
        decreases args.len() - i,
    {
        let arg = args[i].as_str();
        assert(all.skip(i as int)[0] == args@[i as int]@);
        assert(all.skip(i as int).skip(1) == all.skip(i + 1));
        if i + 1 < args.len() {
            assert(all.skip(i as int)[1] == args@[i + 1]@);
            assert(all.skip(i as int).skip(2) == all.skip(i + 2));
        }
        if same_text(arg, "--list-devices") {
            parsed.list_devices = true;
            i = i + 1;
        } else if same_text(arg, "--input-device") {
            if i + 1 >= args.len() {
                return Err(ArgError::NoInputDevice);
            }
            parsed.input_device = Some(args[i + 1].clone());
            i = i + 2;
        } else if same_text(arg, "--output-device") {
            if i + 1 >= args.len() {
                return Err(ArgError::NoOutputDevice);
            }
            parsed.output_device = Some(args[i + 1].clone());
            i = i + 2;
        } else {
            return Err(ArgError::Unknown(args[i].clone()));
        }
    }
    Ok(parsed)
}

/// Arguments are read from left to right: what comes first and is complete is read alike whatever
/// follows it, and what is wrong with an earlier argument is told first, unless it only lacks its
/// value.
pub proof fn lemma_arguments_are_read_in_order(
    before: ArgsModel,
    first: Seq<Seq<char>>,
    second: Seq<Seq<char>>,
)
    ensures
        match before.followed_by(first) {
            Ok(after) => before.followed_by(first + second) == after.followed_by(second),
            Err(ArgErrorModel::Unknown(arg)) => before.followed_by(first + second)
                == Err::<ArgsModel, ArgErrorModel>(ArgErrorModel::Unknown(arg)),
            Err(_) => true,
        },
    decreases first.len(),
{
    let both = first + second;
    if first.len() == 0 {
        assert(both == second);
    } else {
        assert(both[0] == first[0]);
        assert(both.skip(1) == first.skip(1) + second);
        if first.len() >= 2 {
            assert(both[1] == first[1]);
            assert(both.skip(2) == first.skip(2) + second);
        }
        if first[0] == "--list-devices"@ {
            lemma_arguments_are_read_in_order(
                ArgsModel { list_devices: true, ..before },
                first.skip(1),
                second,
            );
        } else if first[0] == "--input-device"@ && first.len() >= 2 {
            lemma_arguments_are_read_in_order(
                ArgsModel { input_device: Some(first[1]), ..before },
                first.skip(2),
                second,
            );
        } else if first[0] == "--output-device"@ && first.len() >= 2 {
            lemma_arguments_are_read_in_order(
                ArgsModel { output_device: Some(first[1]), ..before },
                first.skip(2),
                second,
            );
        }
    }
}

/// A device option at the end stands for any earlier one of its kind, and changes nothing else.
pub proof fn lemma_last_device_counts(args: Seq<Seq<char>>, read: ArgsModel, name: Seq<char>)
    requires
        ArgsModel::none().followed_by(args) == Ok::<ArgsModel, ArgErrorModel>(read),
    ensures
        ArgsModel::none().followed_by(args + seq!["--input-device"@, name]) == Ok::<
            ArgsModel,
            ArgErrorModel,
        >(ArgsModel { input_device: Some(name), ..read }),
        ArgsModel::none().followed_by(args + seq!["--output-device"@, name]) == Ok::<
            ArgsModel,
            ArgErrorModel,
        >(ArgsModel { output_device: Some(name), ..read }),
        ArgsModel::none().followed_by(args + seq!["--list-devices"@]) == Ok::<
            ArgsModel,
            ArgErrorModel,
        >(ArgsModel { list_devices: true, ..read }),
{
    reveal_strlit("--list-devices");
    reveal_strlit("--input-device");
    reveal_strlit("--output-device");
    assert("--list-devices"@[2] != "--input-device"@[2]);
    assert("--list-devices"@[2] != "--output-device"@[2]);
    assert("--input-device"@[2] != "--output-device"@[2]);
    lemma_arguments_are_read_in_order(
        ArgsModel::none(),
        args,
        seq!["--input-device"@, name],
    );
    lemma_arguments_are_read_in_order(
        ArgsModel::none(),
        args,
        seq!["--output-device"@, name],
    );
    lemma_arguments_are_read_in_order(ArgsModel::none(), args, seq!["--list-devices"@]);
    reveal_with_fuel(ArgsModel::followed_by, 2);
    assert(seq!["--input-device"@, name].skip(2) == Seq::<Seq<char>>::empty());
    assert(seq!["--output-device"@, name].skip(2) == Seq::<Seq<char>>::empty());
    assert(seq!["--list-devices"@].skip(1) == Seq::<Seq<char>>::empty());
}

/// Without arguments nothing is asked for, and nothing is changed of what was asked for before.
pub proof fn lemma_no_arguments_ask_for_nothing(before: ArgsModel)
    ensures
        before.followed_by(Seq::empty()) == Ok::<ArgsModel, ArgErrorModel>(before),
        !ArgsModel::none().list_devices,
        ArgsModel::none().input_device is None,
        ArgsModel::none().output_device is None,
{
}

/// After arguments that are in order, a device option that is the last argument lacks its value, and
/// an argument that is no option is unknown, whatever comes after it; the error names it in full.
pub proof fn lemma_wrong_arguments_are_told(
    args: Seq<Seq<char>>,
    read: ArgsModel,
    arg: Seq<char>,
    rest: Seq<Seq<char>>,
)
    requires
        ArgsModel::none().followed_by(args) == Ok::<ArgsModel, ArgErrorModel>(read),
    ensures
        ArgsModel::none().followed_by(args + seq!["--input-device"@]) == Err::<
            ArgsModel,
            ArgErrorModel,
        >(ArgErrorModel::NoInputDevice),
        ArgsModel::none().followed_by(args + seq!["--output-device"@]) == Err::<
            ArgsModel,
            ArgErrorModel,
        >(ArgErrorModel::NoOutputDevice),
        arg != "--list-devices"@ && arg != "--input-device"@ && arg != "--output-device"@
            ==> ArgsModel::none().followed_by(args + (seq![arg] + rest)) == Err::<
            ArgsModel,
            ArgErrorModel,
        >(ArgErrorModel::Unknown(arg)),
{
    reveal_strlit("--list-devices");
    reveal_strlit("--input-device");
    reveal_strlit("--output-device");
    assert("--list-devices"@[2] != "--input-device"@[2]);
    assert("--list-devices"@[2] != "--output-device"@[2]);
    assert("--input-device"@[2] != "--output-device"@[2]);
    lemma_arguments_are_read_in_order(ArgsModel::none(), args, seq!["--input-device"@]);
    lemma_arguments_are_read_in_order(ArgsModel::none(), args, seq!["--output-device"@]);
    lemma_arguments_are_read_in_order(ArgsModel::none(), args, seq![arg] + rest);
    assert((seq![arg] + rest)[0] == arg);
}

/// Arguments and errors by their contents leave nothing out.
pub proof fn lemma_args_model_is_complete(args: Args, e: ArgError)
    ensures
        args@.list_devices == args.list_devices,
        args.input_device is None <==> args@.input_device is None,
        args.input_device matches Some(name) ==> args@.input_device == Some(name@),
        args.output_device is None <==> args@.output_device is None,
        args.output_device matches Some(name) ==> args@.output_device == Some(name@),
        parsed_model(Ok(args)) == Ok::<ArgsModel, ArgErrorModel>(args@),
        parsed_model(Err(e)) == Err::<ArgsModel, ArgErrorModel>(e@),
        e matches ArgError::Unknown(arg) ==> e@ == ArgErrorModel::Unknown(arg@) && e@.text()
            == "unknown argument: "@ + arg@
            + "\n\nUsage: walkie [--list-devices] [--input-device <NAME>] [--output-device <NAME>]"@,
        e == ArgError::NoInputDevice ==> e@ == ArgErrorModel::NoInputDevice,
        e == ArgError::NoOutputDevice ==> e@ == ArgErrorModel::NoOutputDevice,
{
}

} // verus!
