//! The virtual machine: an instruction-queue evaluator over an explicit
//! stack of frames, so that calls, special forms and user closures share
//! one execution protocol and never grow the host stack.

use vstd::prelude::*;

pub mod error;

pub use error::VMError;

use vstd::string::StringExecFns;

use crate::datastructure::{
    env_items_view, items_view, spec_can_index, spec_env_lookup, Callable, CallableModel, Cons,
    ConsModel, EnvItem, EnvItemModel, Environment, Item, ItemModel, Parameters, ParametersModel,
};
use crate::models::lemma_env_items_view;

verus! {

broadcast use crate::models::group_models;

/// One execution primitive of the machine.
#[derive(Debug)]
pub enum Instruction {
    /// Evaluate the expression iff the last popped register was truthy.
    CondEval(Item),
    /// Evaluate the expression iff no guarded branch ran in this frame yet.
    ElseEval(Item),
    /// Evaluate the expression now.
    Eval(Item),
    /// Evaluate the expression strictly in callee position.
    EvalFunction(Item),
    /// Evaluate the item held in the given register.
    EvalRegister(usize),
    /// Deposit the value at the frame's return address.
    Return(EnvItem),
    /// Deposit the value of the given register at the return address.
    ReturnRegister(usize),
    /// Perform the pending call.
    Call,
    /// Fail unless the frame's front register holds a function.
    CrashIfNotFunction,
}

/// Ghost mirror of `Instruction`.
pub enum InstructionModel {
    CondEval(ItemModel),
    ElseEval(ItemModel),
    Eval(ItemModel),
    EvalFunction(ItemModel),
    EvalRegister(int),
    Return(EnvItemModel),
    ReturnRegister(int),
    Call,
    CrashIfNotFunction,
}

impl View for Instruction {
    type V = InstructionModel;

    open spec fn view(&self) -> InstructionModel {
        match self {
            Instruction::CondEval(e) => InstructionModel::CondEval(e@),
            Instruction::ElseEval(e) => InstructionModel::ElseEval(e@),
            Instruction::Eval(e) => InstructionModel::Eval(e@),
            Instruction::EvalFunction(e) => InstructionModel::EvalFunction(e@),
            Instruction::EvalRegister(r) => InstructionModel::EvalRegister(*r as int),
            Instruction::Return(v) => InstructionModel::Return(v@),
            Instruction::ReturnRegister(r) => InstructionModel::ReturnRegister(*r as int),
            Instruction::Call => InstructionModel::Call,
            Instruction::CrashIfNotFunction => InstructionModel::CrashIfNotFunction,
        }
    }
}

/// The sequence of models of a sequence of instructions.
pub open spec fn instrs_view(s: Seq<Instruction>) -> Seq<InstructionModel> {
    Seq::new(s.len(), |i: int| s[i]@)
}

/// One logical call: a register list of pending and returned values, a
/// queue of instructions to run, the return address (ancestor frame index
/// and register index), and the flag recording a satisfied condition.
pub struct StackFrame {
    register: Vec<EnvItem>,
    instructions: Vec<Instruction>,
    ret: (usize, usize),
    condition_success: bool,
}

/// Ghost mirror of `StackFrame`.
#[verifier::ext_equal]
pub struct FrameModel {
    pub register: Seq<EnvItemModel>,
    pub instructions: Seq<InstructionModel>,
    pub ret_stack: int,
    pub ret_register: int,
    pub condition_success: bool,
}

impl FrameModel {
    /// A frame with nothing pending, returning to the origin.
    pub open spec fn empty() -> FrameModel {
        FrameModel {
            register: Seq::empty(),
            instructions: Seq::empty(),
            ret_stack: 0,
            ret_register: 0,
            condition_success: false,
        }
    }
}

impl View for StackFrame {
    type V = FrameModel;

    closed spec fn view(&self) -> FrameModel {
        FrameModel {
            register: env_items_view(self.register@),
            instructions: instrs_view(self.instructions@),
            ret_stack: self.ret.0 as int,
            ret_register: self.ret.1 as int,
            condition_success: self.condition_success,
        }
    }
}

impl Default for StackFrame {
    /// A frame with nothing pending, returning to the origin.
    fn default() -> (r: StackFrame)
        ensures
            r@ == FrameModel::empty(),
    {
        let r = StackFrame {
            register: Vec::new(),
            instructions: Vec::new(),
            ret: (0, 0),
            condition_success: false,
        };
        proof {
            assert(r@.register =~= Seq::<EnvItemModel>::empty());
            assert(r@.instructions =~= Seq::<InstructionModel>::empty());
            assert(r@ =~= FrameModel::empty());
        }
        r
    }
}

impl StackFrame {
    /// A fresh frame that will return to the given ancestor frame and
    /// register slot.
    fn new(stack_pointer: usize, register_pointer: usize) -> (r: StackFrame)
        ensures
            r@ == (FrameModel {
                ret_stack: stack_pointer as int,
                ret_register: register_pointer as int,
                ..FrameModel::empty()
            }),
    {
        let r = StackFrame {
            register: Vec::new(),
            instructions: Vec::new(),
            ret: (stack_pointer, register_pointer),
            condition_success: false,
        };
        proof {
            assert(r@.register =~= Seq::<EnvItemModel>::empty());
            assert(r@.instructions =~= Seq::<InstructionModel>::empty());
            assert(r@ =~= (FrameModel {
                ret_stack: stack_pointer as int,
                ret_register: register_pointer as int,
                ..FrameModel::empty()
            }));
        }
        r
    }
}

/// Ghost mirror of `Machine`: the layered environment and the frame stack.
#[verifier::ext_equal]
pub struct MachineModel {
    pub env: Seq<Map<Seq<char>, EnvItemModel>>,
    pub stack: Seq<FrameModel>,
}

/// The topmost (current) frame.
pub open spec fn m_top(m: MachineModel) -> FrameModel {
    m.stack.last()
}

/// The machine with its topmost frame replaced.
pub open spec fn m_with_top(m: MachineModel, f: FrameModel) -> MachineModel {
    MachineModel { env: m.env, stack: m.stack.update(m.stack.len() - 1, f) }
}

/// The machine owning the frame stack and the environment, and running
/// the fetch-dispatch loop.
pub struct Machine {
    env: Environment,
    stack: Vec<StackFrame>,
}

pub type VMOutput<T = ()> = Result<T, VMError>;

impl View for Machine {
    type V = MachineModel;

    closed spec fn view(&self) -> MachineModel {
        MachineModel {
            env: self.env@,
            stack: Seq::new(self.stack@.len(), |i: int| self.stack@[i]@),
        }
    }
}

impl Machine {
    /// The machine always keeps one frame and one environment layer alive.
    pub open spec fn wf(&self) -> bool {
        self@.stack.len() >= 1 && self@.env.len() >= 1
    }

    /// Appends an instruction to the current frame's queue.
    fn push_instruction(&mut self, instruction: Instruction) -> (r: VMOutput)
        requires
            old(self).wf(),
        ensures
            r is Ok,
            final(self)@ == m_with_top(
                old(self)@,
                FrameModel {
                    instructions: m_top(old(self)@).instructions.push(instruction@),
                    ..m_top(old(self)@)
                },
            ),
            final(self).wf(),
    {
        let ghost pre = self@;
        match self.stack.pop() {
            Some(mut sf) => {
                sf.instructions.push(instruction);
                self.stack.push(sf);
                proof {
                    assert(instrs_view(sf.instructions@) =~= m_top(pre).instructions.push(
                        instruction@,
                    ));
                    assert(final(self)@.stack =~= m_with_top(
                        pre,
                        FrameModel {
                            instructions: m_top(pre).instructions.push(instruction@),
                            ..m_top(pre)
                        },
                    ).stack);
                }
                Ok(())
            }
            None => Err(VMError::error(String::new())),
        }
    }

    /// Appends a value to the back of the current frame's register list.
    fn push_register(&mut self, item: EnvItem) -> (r: VMOutput)
        requires
            old(self).wf(),
        ensures
            r is Ok,
            final(self)@ == m_with_top(
                old(self)@,
                FrameModel {
                    register: m_top(old(self)@).register.push(item@),
                    ..m_top(old(self)@)
                },
            ),
            final(self).wf(),
    {
        let ghost pre = self@;
        match self.stack.pop() {
            Some(mut sf) => {
                let ghost regs0 = sf.register@;
                sf.register.push(item);
                self.stack.push(sf);
                proof {
                    assert(env_items_view(sf.register@) =~= m_top(pre).register.push(item@));
                    assert(final(self)@.stack =~= m_with_top(
                        pre,
                        FrameModel { register: m_top(pre).register.push(item@), ..m_top(pre) },
                    ).stack);
                }
                Ok(())
            }
            None => Err(VMError::error(String::new())),
        }
    }

    /// Prepends a value to the front of the current frame's register list.
    #[allow(dead_code)]
    fn push_register_front(&mut self, item: EnvItem) -> (r: VMOutput)
        requires
            old(self).wf(),
        ensures
            r is Ok,
            final(self)@ == m_with_top(
                old(self)@,
                FrameModel {
                    register: seq![item@] + m_top(old(self)@).register,
                    ..m_top(old(self)@)
                },
            ),
            final(self).wf(),
    {
        let ghost pre = self@;
        match self.stack.pop() {
            Some(mut sf) => {
                sf.register.insert(0, item);
                self.stack.push(sf);
                proof {
                    assert(env_items_view(sf.register@) =~= seq![item@] + m_top(pre).register);
                    assert(final(self)@.stack =~= m_with_top(
                        pre,
                        FrameModel { register: seq![item@] + m_top(pre).register, ..m_top(pre) },
                    ).stack);
                }
                Ok(())
            }
            None => Err(VMError::error(String::new())),
        }
    }

    /// Removes and returns the front register value; an empty register
    /// list yields the absence marker and leaves the machine unchanged.
    fn pop_register(&mut self) -> (r: VMOutput<EnvItem>)
        requires
            old(self).wf(),
        ensures
            r is Ok,
            final(self).wf(),
            m_top(old(self)@).register.len() == 0 ==> final(self)@ == old(self)@ && (r matches Ok(
                v,
            ) && v@ == EnvItemModel::Nil),
            m_top(old(self)@).register.len() > 0 ==> final(self)@ == m_with_top(
                old(self)@,
                FrameModel {
                    register: m_top(old(self)@).register.drop_first(),
                    ..m_top(old(self)@)
                },
            ) && (r matches Ok(v) && v@ == m_top(old(self)@).register[0]),
    {
        let ghost pre = self@;
        match self.stack.pop() {
            Some(mut sf) => {
                if sf.register.len() == 0 {
                    self.stack.push(sf);
                    proof {
                        assert(final(self)@.stack =~= pre.stack);
                    }
                    Ok(EnvItem::Nil)
                } else {
                    let v = sf.register.remove(0);
                    self.stack.push(sf);
                    proof {
                        assert(env_items_view(sf.register@) =~= m_top(pre).register.drop_first());
                        assert(final(self)@.stack =~= m_with_top(
                            pre,
                            FrameModel {
                                register: m_top(pre).register.drop_first(),
                                ..m_top(pre)
                            },
                        ).stack);
                    }
                    Ok(v)
                }
            }
            None => Err(VMError::error(String::new())),
        }
    }

    /// Removes and returns the back register value; an empty register
    /// list yields the absence marker and leaves the machine unchanged.
    fn pop_register_back(&mut self) -> (r: VMOutput<EnvItem>)
        requires
            old(self).wf(),
        ensures
            r is Ok,
            final(self).wf(),
            m_top(old(self)@).register.len() == 0 ==> final(self)@ == old(self)@ && (r matches Ok(
                v,
            ) && v@ == EnvItemModel::Nil),
            m_top(old(self)@).register.len() > 0 ==> final(self)@ == m_with_top(
                old(self)@,
                FrameModel {
                    register: m_top(old(self)@).register.drop_last(),
                    ..m_top(old(self)@)
                },
            ) && (r matches Ok(v) && v@ == m_top(old(self)@).register.last()),
    {
        let ghost pre = self@;
        match self.stack.pop() {
            Some(mut sf) => {
                match sf.register.pop() {
                    Some(v) => {
                        self.stack.push(sf);
                        proof {
                            assert(env_items_view(sf.register@) =~= m_top(
                                pre,
                            ).register.drop_last());
                            assert(final(self)@.stack =~= m_with_top(
                                pre,
                                FrameModel {
                                    register: m_top(pre).register.drop_last(),
                                    ..m_top(pre)
                                },
                            ).stack);
                        }
                        Ok(v)
                    }
                    None => {
                        self.stack.push(sf);
                        proof {
                            assert(final(self)@.stack =~= pre.stack);
                        }
                        Ok(EnvItem::Nil)
                    }
                }
            }
            None => Err(VMError::error(String::new())),
        }
    }

    /// A reference to the last queued instruction of the current frame,
    /// or a fault when the queue is empty.
    fn get_last_instruction(&self) -> (r: VMOutput<&Instruction>)
        requires
            self.wf(),
        ensures
            match r {
                Ok(i) => m_top(self@).instructions.len() > 0 && i@ == m_top(
                    self@,
                ).instructions.last(),
                Err(_) => m_top(self@).instructions.len() == 0,
            },
    {
        let sf = &self.stack[self.stack.len() - 1];
        if sf.instructions.len() > 0 {
            Ok(&sf.instructions[sf.instructions.len() - 1])
        } else {
            Err(VMError::error(String::from_str("No more instruction")))
        }
    }

    /// Enters a call: records the return address in the caller (appending
    /// a placeholder register slot there), pushes the fresh frame, and
    /// pushes its environment layer.
    fn push_stack_frame(&mut self) -> (r: VMOutput)
        requires
            old(self).wf(),
        ensures
            r is Ok,
            final(self).wf(),
            final(self)@.env == old(self)@.env.push(Map::<Seq<char>, EnvItemModel>::empty()),
            final(self)@.stack == old(self)@.stack.update(
                old(self)@.stack.len() - 1,
                FrameModel {
                    register: m_top(old(self)@).register.push(EnvItemModel::Nil),
                    ..m_top(old(self)@)
                },
            ).push(
                FrameModel {
                    ret_stack: old(self)@.stack.len() - 1,
                    ret_register: m_top(old(self)@).register.len() as int,
                    ..FrameModel::empty()
                },
            ),
    {
        let ghost pre = self@;
        let sp = self.stack.len() - 1;
        let rp = self.stack[sp].register.len();
        let res = self.push_register(EnvItem::Nil);
        self.stack.push(StackFrame::new(sp, rp));
        self.env.push();
        proof {
            assert(final(self)@.stack =~= pre.stack.update(
                pre.stack.len() - 1,
                FrameModel { register: m_top(pre).register.push(EnvItemModel::Nil), ..m_top(pre) },
            ).push(
                FrameModel {
                    ret_stack: pre.stack.len() - 1,
                    ret_register: m_top(pre).register.len() as int,
                    ..FrameModel::empty()
                },
            ));
        }
        Ok(())
    }

    /// Leaves the current call: drops the top frame with its environment
    /// layer; if the last frame was dropped, a fresh root frame and layer
    /// take its place.
    fn pop_stack_frame(&mut self) -> (r: VMOutput)
        requires
            old(self).wf(),
        ensures
            r is Ok,
            final(self).wf(),
            final(self)@ == sp_pop_frame(old(self)@),
    {
        let ghost pre = self@;
        self.env.pop();
        self.stack.pop();
        if self.stack.len() == 0 {
            self.stack.push(StackFrame::default());
            self.env.push();
            proof {
                assert(final(self)@.stack =~= seq![FrameModel::empty()]);
            }
        } else {
            proof {
                assert(final(self)@.stack =~= pre.stack.drop_last());
            }
        }
        Ok(())
    }

    /// Drains and returns the current frame's register list.
    fn get_current_register(&mut self) -> (r: VMOutput<Vec<EnvItem>>)
        requires
            old(self).wf(),
        ensures
            final(self).wf(),
            r matches Ok(regs) && env_items_view(regs@) == m_top(old(self)@).register,
            final(self)@ == m_with_top(
                old(self)@,
                FrameModel { register: Seq::empty(), ..m_top(old(self)@) },
            ),
    {
        let ghost pre = self@;
        match self.stack.pop() {
            Some(mut sf) => {
                let mut regs: Vec<EnvItem> = Vec::new();
                core::mem::swap(&mut sf.register, &mut regs);
                self.stack.push(sf);
                proof {
                    assert(env_items_view(sf.register@) =~= Seq::<EnvItemModel>::empty());
                    assert(final(self)@.stack =~= m_with_top(
                        pre,
                        FrameModel { register: Seq::empty(), ..m_top(pre) },
                    ).stack);
                }
                Ok(regs)
            }
            None => Err(VMError::error(String::new())),
        }
    }

    /// Removes and returns the register at the given position, faulting
    /// when the position is out of range.
    fn get_register(&mut self, register: usize) -> (r: VMOutput<EnvItem>)
        requires
            old(self).wf(),
        ensures
            final(self).wf(),
            register < m_top(old(self)@).register.len() ==> (r matches Ok(v) && v@ == m_top(
                old(self)@,
            ).register[register as int]) && final(self)@ == m_with_top(
                old(self)@,
                FrameModel {
                    register: m_top(old(self)@).register.remove(register as int),
                    ..m_top(old(self)@)
                },
            ),
            register >= m_top(old(self)@).register.len() ==> r is Err && final(self)@ == old(
                self,
            )@,
    {
        let ghost pre = self@;
        match self.stack.pop() {
            Some(mut sf) => {
                if register < sf.register.len() {
                    let ghost regs0 = sf.register@;
                    let v = sf.register.remove(register);
                    self.stack.push(sf);
                    proof {
                        m_top(pre).register.remove_ensures(register as int);
                        assert(env_items_view(regs0) == m_top(pre).register);
                        assert(env_items_view(sf.register@) =~= m_top(pre).register.remove(
                            register as int,
                        ));
                        assert(final(self)@.stack =~= m_with_top(
                            pre,
                            FrameModel {
                                register: m_top(pre).register.remove(register as int),
                                ..m_top(pre)
                            },
                        ).stack);
                    }
                    Ok(v)
                } else {
                    self.stack.push(sf);
                    proof {
                        assert(final(self)@.stack =~= pre.stack);
                    }
                    Err(VMError::error(String::from_str("Could not get the item in register")))
                }
            }
            None => Err(VMError::error(String::new())),
        }
    }

    /// Removes the register at the given position and returns the plain
    /// item it holds, faulting when it is absent or not plain data.
    fn get_register_item(&mut self, register: usize) -> (r: VMOutput<Item>)
        requires
            old(self).wf(),
        ensures
            final(self).wf(),
            register >= m_top(old(self)@).register.len() ==> r is Err && final(self)@ == old(
                self,
            )@,
            register < m_top(old(self)@).register.len() ==> final(self)@ == m_with_top(
                old(self)@,
                FrameModel {
                    register: m_top(old(self)@).register.remove(register as int),
                    ..m_top(old(self)@)
                },
            ) && (match m_top(old(self)@).register[register as int] {
                EnvItemModel::Data(d) => r matches Ok(v) && v@ == d,
                _ => r is Err,
            }),
    {
        let v = self.get_register(register)?;
        match v {
            EnvItem::Data(d) => Ok(d),
            _ => Err(VMError::error(String::from_str("Could not get the item in register"))),
        }
    }

    /// Resets the stack to a single fresh frame; the environment survives.
    fn clear_stack(&mut self) -> (r: VMOutput)
        ensures
            r is Ok,
            final(self)@.stack == seq![FrameModel::empty()],
            final(self)@.env == old(self)@.env,
    {
        self.stack = vec![StackFrame::default()];
        proof {
            assert(final(self)@.stack =~= seq![FrameModel::empty()]);
        }
        Ok(())
    }

    /// Binds `key` to `value` in the outermost (global) layer: the channel
    /// by which top-level definitions and the native library register
    /// themselves.
    pub fn define(&mut self, key: &str, value: EnvItem) -> (r: VMOutput)
        requires
            old(self).wf(),
        ensures
            r is Ok,
            final(self).wf(),
            final(self)@.stack == old(self)@.stack,
            final(self)@.env.len() == old(self)@.env.len(),
            forall|i: int|
                1 <= i < final(self)@.env.len() ==> final(self)@.env[i] == old(self)@.env[i],
            final(self)@.env[0] == old(self)@.env[0].insert(key@, value@),
    {
        self.env.define(key, value);
        Ok(())
    }

    /// Looks a name up through the scope stack, faulting when it is
    /// unbound.
    pub fn lookup(&self, key: &str) -> (r: VMOutput<EnvItem>)
        ensures
            match r {
                Ok(v) => spec_env_lookup(self@.env, key@) != EnvItemModel::Nil && v@
                    == spec_env_lookup(self@.env, key@),
                Err(_) => spec_env_lookup(self@.env, key@) == EnvItemModel::Nil,
            },
    {
        match self.env.lookup(key) {
            EnvItem::Nil => Err(
                VMError::error(
                    String::from_str("No item could be found under the name: '").concat(
                        key,
                    ).concat("'"),
                ),
            ),
            item => Ok(item),
        }
    }

    /// Prepares a call from native code: a fresh frame whose front
    /// register holds the function to apply.
    pub fn call(&mut self, name: String, func: Callable, params: Parameters) -> (r: VMOutput)
        requires
            old(self).wf(),
        ensures
            r is Ok,
            final(self).wf(),
            final(self)@.env == old(self)@.env.push(Map::<Seq<char>, EnvItemModel>::empty()),
            final(self)@.stack == old(self)@.stack.update(
                old(self)@.stack.len() - 1,
                FrameModel {
                    register: m_top(old(self)@).register.push(EnvItemModel::Nil),
                    ..m_top(old(self)@)
                },
            ).push(
                FrameModel {
                    register: seq![
                        EnvItemModel::Function(name@, func@, params@),
                    ],
                    ret_stack: old(self)@.stack.len() - 1,
                    ret_register: m_top(old(self)@).register.len() as int,
                    ..FrameModel::empty()
                },
            ),
    {
        let ghost f = EnvItemModel::Function(name@, func@, params@);
        self.push_stack_frame()?;
        let ghost mid = self@;
        self.push_register(EnvItem::Function(name, func, params))?;
        proof {
            assert(final(self)@.stack =~= old(self)@.stack.update(
                old(self)@.stack.len() - 1,
                FrameModel {
                    register: m_top(old(self)@).register.push(EnvItemModel::Nil),
                    ..m_top(old(self)@)
                },
            ).push(
                FrameModel {
                    register: seq![f],
                    ret_stack: old(self)@.stack.len() - 1,
                    ret_register: m_top(old(self)@).register.len() as int,
                    ..FrameModel::empty()
                },
            ));
        }
        Ok(())
    }
}

/// The machine with one instruction appended to the current frame's
/// queue.
pub open spec fn sp_queue(m: MachineModel, i: InstructionModel) -> MachineModel {
    m_with_top(m, FrameModel { instructions: m_top(m).instructions.push(i), ..m_top(m) })
}

/// The machine with one value appended to the current frame's registers.
pub open spec fn sp_push_reg(m: MachineModel, v: EnvItemModel) -> MachineModel {
    m_with_top(m, FrameModel { register: m_top(m).register.push(v), ..m_top(m) })
}

/// The machine after entering a call: a placeholder register slot in the
/// caller, a fresh frame addressing it, and a fresh environment layer.
pub open spec fn sp_push_frame(m: MachineModel) -> MachineModel {
    MachineModel {
        env: m.env.push(Map::<Seq<char>, EnvItemModel>::empty()),
        stack: m.stack.update(
            m.stack.len() - 1,
            FrameModel { register: m_top(m).register.push(EnvItemModel::Nil), ..m_top(m) },
        ).push(
            FrameModel {
                ret_stack: m.stack.len() - 1,
                ret_register: m_top(m).register.len() as int,
                ..FrameModel::empty()
            },
        ),
    }
}

/// The quote native, as scheduled by the special forms that need an
/// identity callee.
pub open spec fn spec_quote_fn() -> EnvItemModel {
    EnvItemModel::Function(
        "quote"@,
        CallableModel::Quote,
        ParametersModel::Individual(seq!["value"@]),
    )
}

/// The name a parameter item carries.
pub open spec fn spec_name_of(it: ItemModel) -> Seq<char> {
    match it {
        ItemModel::Name(n) => n,
        _ => Seq::empty(),
    }
}

/// The parameter contract a `lambda` parameter item denotes: a bare name
/// captures every argument, a list of names is matched by arity, and
/// anything else is malformed.
pub open spec fn spec_param_list(item: ItemModel) -> Option<ParametersModel> {
    match item {
        ItemModel::Name(n) => Some(ParametersModel::All(n)),
        ItemModel::Cons(c) => if forall|i: int| 0 <= i < c.data.len() ==> c.data[i] is Name {
            Some(
                ParametersModel::Individual(
                    Seq::new(c.data.len(), |i: int| spec_name_of(c.data[i])),
                ),
            )
        } else {
            None
        },
        _ => None,
    }
}

/// The machine with one `Eval` queued per list element from `from` on.
pub open spec fn sp_queue_evals(m: MachineModel, items: Seq<ItemModel>, from: int) -> MachineModel
    decreases items.len() - from,
{
    if 0 <= from < items.len() {
        sp_queue_evals(sp_queue(m, InstructionModel::Eval(items[from])), items, from + 1)
    } else {
        m
    }
}

/// How a special form rewrites the fresh call frame, and how many leading
/// list elements its expansion already consumed; `None` is a malformed
/// shape.
pub open spec fn sp_special(m: MachineModel, name: Seq<char>, list: ConsModel) -> Option<
    (MachineModel, int),
> {
    if name == "def"@ || name == "define"@ {
        if spec_can_index(list, 1) {
            Some(
                (
                    sp_push_reg(
                        sp_push_reg(m, crate::stdlib::spec_def_env()),
                        EnvItemModel::Data(list.data[1]),
                    ),
                    2,
                ),
            )
        } else {
            None
        }
    } else if name == "quote"@ {
        if list.data.len() == 2 && spec_can_index(list, 1) {
            Some(
                (
                    sp_push_reg(sp_push_reg(m, spec_quote_fn()), EnvItemModel::Data(list.data[1])),
                    2,
                ),
            )
        } else {
            None
        }
    } else if name == "if"@ {
        if list.data.len() == 4 && spec_can_index(list, 3) {
            Some(
                (
                    sp_queue(
                        sp_queue(
                            sp_queue(
                                sp_push_reg(m, spec_quote_fn()),
                                InstructionModel::Eval(list.data[1]),
                            ),
                            InstructionModel::CondEval(list.data[2]),
                        ),
                        InstructionModel::ElseEval(list.data[3]),
                    ),
                    4,
                ),
            )
        } else {
            None
        }
    } else if name == "eval"@ {
        Some(
            (
                sp_push_reg(
                    sp_push_frame(
                        sp_queue(
                            sp_queue(
                                sp_push_reg(m, spec_quote_fn()),
                                InstructionModel::EvalRegister(1),
                            ),
                            InstructionModel::Call,
                        ),
                    ),
                    spec_quote_fn(),
                ),
                1,
            ),
        )
    } else if name == "lambda"@ {
        if spec_can_index(list, 1) {
            match spec_param_list(list.data[1]) {
                Some(params) => Some(
                    (
                        sp_queue(
                            m,
                            InstructionModel::Return(
                                EnvItemModel::Function(
                                    "lambda"@,
                                    CallableModel::Lambda(
                                        list.data.subrange(2, list.data.len() as int),
                                    ),
                                    params,
                                ),
                            ),
                        ),
                        list.data.len() as int,
                    ),
                ),
                None => None,
            }
        } else {
            None
        }
    } else {
        Some((sp_queue(m, InstructionModel::EvalFunction(ItemModel::Name(name))), 1))
    }
}

/// Whether a string holds exactly the given text.
fn str_is(s: &String, lit: &str) -> (r: bool)
    ensures
        r == (s@ == lit@),
{
    *s == lit.to_owned()
}

/// The quote native as a schedulable runtime value.
pub(crate) fn gen_quote() -> (r: EnvItem)
    ensures
        r@ == spec_quote_fn(),
{
    let mut names: Vec<String> = Vec::new();
    names.push("value".to_owned());
    let params = Parameters::Individual(names);
    proof {
        assert(crate::datastructure::strings_view(names@) =~= seq!["value"@]);
    }
    EnvItem::Function("quote".to_owned(), Callable::Quote, params)
}

/// A user closure: the parameter contract and the ordered body
/// expressions, packaged as a runtime function value.
pub fn gen_lambda(body: Vec<Item>, params: Parameters) -> (r: EnvItem)
    ensures
        r@ == EnvItemModel::Function("lambda"@, CallableModel::Lambda(items_view(body@)), params@),
{
    EnvItem::Function("lambda".to_owned(), Callable::Lambda(body), params)
}

/// Reads a `lambda` parameter item into a parameter contract, faulting on
/// a malformed shape.
#[verifier::loop_isolation(false)]
fn generate_parameter_list(item: &Item) -> (r: VMOutput<Parameters>)
    ensures
        match spec_param_list(item@) {
            Some(p) => r matches Ok(params) && params@ == p,
            None => r is Err,
        },
{
    match item {
        Item::Cons(list) => {
            let n = list.len();
            let mut names: Vec<String> = Vec::new();
            let mut i: usize = 0;
            while i < n
                invariant
                    n == list@.data.len(),
                    i <= n,
                    names@.len() == i,
                    forall|j: int| 0 <= j < i ==> list@.data[j] is Name,
                    forall|j: int|
                        0 <= j < i ==> names@[j]@ == spec_name_of(#[trigger] list@.data[j]),
                decreases n - i,
            {
                let element = list.get(i);
                match element {
                    Item::Name(name) => {
                        names.push(name.clone());
                    }
                    _ => {
                        proof {
                            assert(!(element@ is Name));
                            assert(!(list@.data[i as int] is Name));
                        }
                        return Err(
                            VMError::error(String::from_str("A parameter is not a name")),
                        );
                    }
                }
                i = i + 1;
            }
            let params = Parameters::Individual(names);
            proof {
                assert(crate::datastructure::strings_view(names@) =~= Seq::new(
                    list@.data.len(),
                    |j: int| spec_name_of(list@.data[j]),
                ));
                assert(params@ == ParametersModel::Individual(
                    crate::datastructure::strings_view(names@),
                ));
            }
            Ok(params)
        }
        Item::Name(name) => Ok(Parameters::All(name.clone())),
        _ => Err(VMError::error(String::from_str("A parameter list must be a list or a name"))),
    }
}

/// What evaluating a name does: push the bound value, or fault when it
/// is unbound.
pub open spec fn sp_eval_name(m: MachineModel, n: Seq<char>) -> Option<MachineModel> {
    let v = spec_env_lookup(m.env, n);
    if v == EnvItemModel::Nil {
        None
    } else {
        Some(sp_push_reg(m, v))
    }
}

/// What evaluating a name in callee position does: push the bound
/// function, or fault when the name is unbound or not a function.
pub open spec fn sp_eval_function_name(m: MachineModel, n: Seq<char>) -> Option<MachineModel> {
    match spec_env_lookup(m.env, n) {
        EnvItemModel::Function(fname, callable, params) => Some(
            sp_push_reg(m, EnvItemModel::Function(fname, callable, params)),
        ),
        _ => None,
    }
}

/// What assembling an ordinary call does: a fresh frame, the callee
/// scheduled (with special-form expansion when the head is a reserved
/// name), the function guard, one `Eval` per remaining element, and the
/// closing `Call`.
pub open spec fn sp_eval_list(m: MachineModel, list: ConsModel) -> Option<MachineModel> {
    if list.data.len() == 0 {
        None
    } else {
        let m1 = sp_push_frame(m);
        let setup = match list.data[0] {
            ItemModel::Name(n) => sp_special(m1, n, list),
            _ => Some((sp_queue(m1, InstructionModel::EvalFunction(list.data[0])), 1int)),
        };
        match setup {
            Some(pair) => Some(
                sp_queue(
                    sp_queue_evals(
                        sp_queue(pair.0, InstructionModel::CrashIfNotFunction),
                        list.data,
                        pair.1,
                    ),
                    InstructionModel::Call,
                ),
            ),
            None => None,
        }
    }
}

/// What evaluating an expression does: a list becomes a call, a name is
/// looked up, and anything else is already a value.
pub open spec fn sp_eval_item(m: MachineModel, it: ItemModel) -> Option<MachineModel> {
    match it {
        ItemModel::Cons(c) => sp_eval_list(m, c),
        ItemModel::Name(n) => sp_eval_name(m, n),
        other => Some(sp_push_reg(m, EnvItemModel::Data(other))),
    }
}

/// What evaluating an expression in callee position does.
pub open spec fn sp_eval_function(m: MachineModel, it: ItemModel) -> Option<MachineModel> {
    match it {
        ItemModel::Cons(c) => sp_eval_list(m, c),
        ItemModel::Name(n) => sp_eval_function_name(m, n),
        _ => None,
    }
}

/// What a guarded branch does: pop the test value from the back register
/// and evaluate the branch only if the test was truthy, recording the
/// taken branch in the frame.
pub open spec fn sp_cond_eval(m: MachineModel, e: ItemModel) -> Option<MachineModel> {
    if m_top(m).register.len() == 0 {
        None
    } else {
        let v = m_top(m).register.last();
        let m1 = m_with_top(m, FrameModel { register: m_top(m).register.drop_last(), ..m_top(m) });
        match v {
            EnvItemModel::Data(d) => if crate::datastructure::item_truthy(d) {
                sp_eval_item(
                    m_with_top(m1, FrameModel { condition_success: true, ..m_top(m1) }),
                    e,
                )
            } else {
                Some(m1)
            },
            _ => None,
        }
    }
}

/// What the fallback branch does: evaluate only if no guarded branch ran
/// in this frame yet.
pub open spec fn sp_else_eval(m: MachineModel, e: ItemModel) -> Option<MachineModel> {
    if !m_top(m).condition_success {
        sp_eval_item(m, e)
    } else {
        Some(m)
    }
}

/// What evaluating a register does: remove the plain item it holds and
/// evaluate it.
pub open spec fn sp_eval_register(m: MachineModel, idx: int) -> Option<MachineModel> {
    if 0 <= idx < m_top(m).register.len() {
        match m_top(m).register[idx] {
            EnvItemModel::Data(d) => sp_eval_item(
                m_with_top(
                    m,
                    FrameModel { register: m_top(m).register.remove(idx), ..m_top(m) },
                ),
                d,
            ),
            _ => None,
        }
    } else {
        None
    }
}

impl Machine {
    /// Records in the current frame that a guarded branch ran.
    fn set_condition_success(&mut self) -> (r: VMOutput)
        requires
            old(self).wf(),
        ensures
            r is Ok,
            final(self).wf(),
            final(self)@ == m_with_top(
                old(self)@,
                FrameModel { condition_success: true, ..m_top(old(self)@) },
            ),
    {
        let ghost pre = self@;
        match self.stack.pop() {
            Some(mut sf) => {
                sf.condition_success = true;
                self.stack.push(sf);
                proof {
                    assert(final(self)@.stack =~= m_with_top(
                        pre,
                        FrameModel { condition_success: true, ..m_top(pre) },
                    ).stack);
                }
                Ok(())
            }
            None => Err(VMError::error(String::new())),
        }
    }

    /// Handles a reserved operator name: expands the special form into
    /// the fresh call frame and says how many leading elements it
    /// consumed, or faults on a malformed shape.
    fn eval_special_function(&mut self, name: &String, list: &Cons) -> (r: VMOutput<usize>)
        requires
            old(self).wf(),
        ensures
            final(self).wf(),
            match r {
                Ok(skip) => ({
                    let result = sp_special(old(self)@, name@, list@);
                    &&& result is Some
                    &&& final(self)@ == (result->0).0
                    &&& skip as int == (result->0).1
                }),
                Err(_) => ({
                    &&& sp_special(old(self)@, name@, list@) is None
                    &&& final(self)@ == old(self)@
                }),
            },
    {
        if str_is(name, "def") || str_is(name, "define") {
            if !list.can_index(1) {
                return Err(
                    VMError::error(String::from_str("Malformed definition: no name to bind")),
                );
            }
            self.push_register(crate::stdlib::def_env())?;
            self.push_register(EnvItem::Data(list.cadr().clone()))?;
            Ok(2)
        } else if str_is(name, "quote") {
            if list.len() != 2 {
                return Err(VMError::error(String::from_str("Too many arguments to function")));
            }
            if !list.can_index(1) {
                return Err(
                    VMError::error(String::from_str("Malformed quotation: nothing to quote")),
                );
            }
            self.push_register(gen_quote())?;
            self.push_register(EnvItem::Data(list.cadr().clone()))?;
            Ok(2)
        } else if str_is(name, "if") {
            if list.len() != 4 {
                return Err(
                    VMError::error(
                        String::from_str("Incorrect amount of arguments for the 'if' function"),
                    ),
                );
            }
            if !list.can_index(3) {
                return Err(
                    VMError::error(String::from_str("Malformed conditional: improper shape")),
                );
            }
            self.push_register(gen_quote())?;
            self.push_instruction(Instruction::Eval(list.cadr().clone()))?;
            self.push_instruction(Instruction::CondEval(list.caddr().clone()))?;
            self.push_instruction(Instruction::ElseEval(list.cadddr().clone()))?;
            Ok(4)
        } else if str_is(name, "eval") {
            self.push_register(gen_quote())?;
            self.push_instruction(Instruction::EvalRegister(1))?;
            self.push_instruction(Instruction::Call)?;
            self.push_stack_frame()?;
            self.push_register(gen_quote())?;
            Ok(1)
        } else if str_is(name, "lambda") {
            if !list.can_index(1) {
                return Err(
                    VMError::error(String::from_str("Malformed closure: no parameter list")),
                );
            }
            let var_bindings = match generate_parameter_list(list.cadr()) {
                Ok(p) => p,
                Err(e) => {
                    return Err(e);
                }
            };
            self.push_instruction(
                Instruction::Return(gen_lambda(list.cddr_list(), var_bindings)),
            )?;
            Ok(list.len())
        } else {
            self.push_instruction(Instruction::EvalFunction(Item::Name(name.clone())))?;
            Ok(1)
        }
    }

    /// Assembles an ordinary call, as `sp_eval_list` describes: eager
    /// left-to-right argument evaluation in the fresh frame, then the
    /// call itself.
    #[verifier::loop_isolation(false)]
    fn eval_list(&mut self, list: Cons) -> (r: VMOutput)
        requires
            old(self).wf(),
        ensures
            final(self).wf(),
            r is Ok <==> sp_eval_list(old(self)@, list@) is Some,
            r is Ok ==> final(self)@ == sp_eval_list(old(self)@, list@)->0,
    {
        if list.len() == 0 {
            return Err(VMError::error(String::from_str("A list should never be empty")));
        }
        self.push_stack_frame()?;
        let skip: usize;
        let mut head_name: Option<String> = None;
        match list.car() {
            Item::Name(n) => {
                proof {
                    assert(list@.data[0] == ItemModel::Name(n@));
                }
                head_name = Some(n.clone());
            }
            other => {
                proof {
                    assert(list@.data[0] == other@);
                    assert(!(list@.data[0] is Name));
                }
            }
        }
        match head_name {
            Some(n) => {
                skip = match self.eval_special_function(&n, &list) {
                    Ok(s) => s,
                    Err(e) => {
                        return Err(e);
                    }
                };
            }
            None => {
                self.push_instruction(Instruction::EvalFunction(list.car().clone()))?;
                skip = 1;
            }
        }
        self.push_instruction(Instruction::CrashIfNotFunction)?;
        let ghost m3 = self@;
        let ghost target = sp_queue_evals(m3, list@.data, skip as int);
        let mut i: usize = skip;
        while i < list.len()
            invariant
                skip <= i,
                target == sp_queue_evals(self@, list@.data, i as int),
                self.wf(),
            decreases list@.data.len() - i,
        {
            let it = list.get(i).clone();
            self.push_instruction(Instruction::Eval(it))?;
            i = i + 1;
        }
        proof {
            assert(self@ == target);
        }
        self.push_instruction(Instruction::Call)?;
        Ok(())
    }

    /// Evaluates a name: pushes the bound value, or faults when the name
    /// is unbound.
    fn eval_name(&mut self, name: String) -> (r: VMOutput)
        requires
            old(self).wf(),
        ensures
            final(self).wf(),
            r is Ok <==> sp_eval_name(old(self)@, name@) is Some,
            r is Ok ==> final(self)@ == sp_eval_name(old(self)@, name@)->0,
    {
        let looked = self.env.lookup(name.as_str());
        match looked {
            EnvItem::Nil => Err(
                VMError::error(
                    String::from_str("'").concat(name.as_str()).concat("' not found"),
                ),
            ),
            item => self.push_register(item),
        }
    }

    /// Evaluates a name in callee position: pushes the bound function, or
    /// faults when the name is unbound or bound to plain data.
    fn eval_function_name(&mut self, name: String) -> (r: VMOutput)
        requires
            old(self).wf(),
        ensures
            final(self).wf(),
            r is Ok <==> sp_eval_function_name(old(self)@, name@) is Some,
            r is Ok ==> final(self)@ == sp_eval_function_name(old(self)@, name@)->0,
    {
        let looked = self.env.lookup(name.as_str());
        match looked {
            EnvItem::Function(fname, func, params) => self.push_register(
                EnvItem::Function(fname, func, params),
            ),
            EnvItem::Nil => Err(
                VMError::error(
                    String::from_str("'").concat(name.as_str()).concat("' not found"),
                ),
            ),
            _ => Err(
                VMError::error(
                    String::from_str("'").concat(name.as_str()).concat(
                        "' is not bound to a function",
                    ),
                ),
            ),
        }
    }

    /// Evaluates one expression, as `sp_eval_item` describes.
    fn eval_item(&mut self, item: Item) -> (r: VMOutput)
        requires
            old(self).wf(),
        ensures
            final(self).wf(),
            r is Ok <==> sp_eval_item(old(self)@, item@) is Some,
            r is Ok ==> final(self)@ == sp_eval_item(old(self)@, item@)->0,
    {
        match item {
            Item::Cons(list) => self.eval_list(list),
            Item::Name(n) => self.eval_name(n),
            item => self.push_register(EnvItem::Data(item)),
        }
    }

    /// Evaluates one expression in callee position, as `sp_eval_function`
    /// describes.
    fn eval_function(&mut self, item: Item) -> (r: VMOutput)
        requires
            old(self).wf(),
        ensures
            final(self).wf(),
            r is Ok <==> sp_eval_function(old(self)@, item@) is Some,
            r is Ok ==> final(self)@ == sp_eval_function(old(self)@, item@)->0,
    {
        match item {
            Item::Cons(list) => self.eval_list(list),
            Item::Name(n) => self.eval_function_name(n),
            _ => Err(VMError::error(String::from_str("The expression is not a function"))),
        }
    }

    /// Runs a guarded branch, as `sp_cond_eval` describes.
    fn conditional_eval(&mut self, expression: Item) -> (r: VMOutput)
        requires
            old(self).wf(),
        ensures
            final(self).wf(),
            r is Ok <==> sp_cond_eval(old(self)@, expression@) is Some,
            r is Ok ==> final(self)@ == sp_cond_eval(old(self)@, expression@)->0,
    {
        let reg = self.pop_register_back()?;
        let test = match reg {
            EnvItem::Data(d) => d,
            _ => {
                return Err(
                    VMError::error(
                        String::from_str("Test of the conditional can not be converted to a bool"),
                    ),
                );
            }
        };
        if test.truthy() {
            self.set_condition_success()?;
            self.eval_item(expression)
        } else {
            Ok(())
        }
    }

    /// Runs the fallback branch, as `sp_else_eval` describes.
    fn else_eval(&mut self, expression: Item) -> (r: VMOutput)
        requires
            old(self).wf(),
        ensures
            final(self).wf(),
            r is Ok <==> sp_else_eval(old(self)@, expression@) is Some,
            r is Ok ==> final(self)@ == sp_else_eval(old(self)@, expression@)->0,
    {
        let li = self.stack.len() - 1;
        if !self.stack[li].condition_success {
            self.eval_item(expression)
        } else {
            Ok(())
        }
    }

    /// Evaluates the item held in a register, as `sp_eval_register`
    /// describes.
    fn eval_register(&mut self, register: usize) -> (r: VMOutput)
        requires
            old(self).wf(),
        ensures
            final(self).wf(),
            r is Ok <==> sp_eval_register(old(self)@, register as int) is Some,
            r is Ok ==> final(self)@ == sp_eval_register(old(self)@, register as int)->0,
    {
        let item = self.get_register_item(register)?;
        self.eval_item(item)
    }

    /// Succeeds exactly when the current frame's front register holds a
    /// function: the earliest point at which calling a non-function can
    /// be caught.
    fn crash_if_not_function(&self) -> (r: VMOutput)
        requires
            self.wf(),
        ensures
            r is Ok <==> m_top(self@).register.len() > 0 && m_top(self@).register[0] matches
                EnvItemModel::Function(_, _, _),
    {
        let sf = &self.stack[self.stack.len() - 1];
        if sf.register.len() == 0 {
            return Err(VMError::not_a_function());
        }
        proof {
            broadcast use crate::models::group_models;
        }
        match &sf.register[0] {
            EnvItem::Function(_, _, _) => Ok(()),
            _ => Err(VMError::not_a_function()),
        }
    }
}

/// The machine after leaving the current call: the top frame and its
/// environment layer are dropped; dropping the last frame leaves a fresh
/// root frame and layer instead.
pub open spec fn sp_pop_frame(m: MachineModel) -> MachineModel {
    let env = if m.env.len() > 1 {
        m.env.drop_last()
    } else {
        m.env
    };
    if m.stack.len() > 1 {
        MachineModel { env, stack: m.stack.drop_last() }
    } else {
        MachineModel {
            env: env.push(Map::<Seq<char>, EnvItemModel>::empty()),
            stack: seq![FrameModel::empty()],
        }
    }
}

/// What depositing a result does: write the value at the frame's return
/// address in the ancestor frame, then leave the call. A return address
/// outside the stack is an internal-invariant fault.
pub open spec fn sp_return(m: MachineModel, v: EnvItemModel) -> Option<MachineModel> {
    let sp = m_top(m).ret_stack;
    let rp = m_top(m).ret_register;
    if 0 <= sp < m.stack.len() && 0 <= rp < m.stack[sp].register.len() {
        Some(
            sp_pop_frame(
                MachineModel {
                    env: m.env,
                    stack: m.stack.update(
                        sp,
                        FrameModel {
                            register: m.stack[sp].register.update(rp, v),
                            ..m.stack[sp]
                        },
                    ),
                },
            ),
        )
    } else {
        None
    }
}

/// What depositing a register does: remove it, then return its value.
pub open spec fn sp_return_register(m: MachineModel, idx: int) -> Option<MachineModel> {
    if 0 <= idx < m_top(m).register.len() {
        sp_return(
            m_with_top(m, FrameModel { register: m_top(m).register.remove(idx), ..m_top(m) }),
            m_top(m).register[idx],
        )
    } else {
        None
    }
}

/// The scope layer after binding fixed parameter names to their
/// arguments in order; a later occurrence of a name wins.
pub open spec fn spec_bind_names(
    layer: Map<Seq<char>, EnvItemModel>,
    names: Seq<Seq<char>>,
    vals: Seq<EnvItemModel>,
) -> Map<Seq<char>, EnvItemModel>
    decreases names.len(),
{
    if names.len() == 0 {
        layer
    } else {
        spec_bind_names(layer, names.drop_last(), vals.drop_last()).insert(
            names.last(),
            vals.last(),
        )
    }
}

/// The arity law of fixed parameter lists: once an argument list of
/// matching length is bound, every name whose occurrence is the last one
/// resolves in the new scope to exactly its argument.
pub proof fn lemma_individual_binding(
    layer: Map<Seq<char>, EnvItemModel>,
    names: Seq<Seq<char>>,
    vals: Seq<EnvItemModel>,
    i: int,
)
    requires
        names.len() == vals.len(),
        0 <= i < names.len(),
        forall|j: int| i < j < names.len() ==> names[j] != names[i],
    ensures
        spec_bind_names(layer, names, vals).contains_key(names[i]),
        spec_bind_names(layer, names, vals)[names[i]] == vals[i],
    decreases names.len(),
{
    if i == names.len() - 1 {
    } else {
        lemma_individual_binding(layer, names.drop_last(), vals.drop_last(), i);
        assert(names.drop_last()[i] == names[i]);
        assert(names.last() != names[i]);
    }
}


/// What one native computes from the bound arguments, and how it changes
/// the machine: every native but `define` and a closure leaves the
/// machine alone and yields a value; `define` also writes the global
/// layer, and a closure schedules its body instead.
pub open spec fn sp_native(m: MachineModel, callable: CallableModel) -> Option<
    (MachineModel, EnvItemModel),
> {
    match callable {
        CallableModel::Addition => match spec_env_lookup(m.env, "args"@) {
            EnvItemModel::VariableBinding(vals) => if crate::stdlib::math::spec_all_numbers(vals)
                && crate::stdlib::math::spec_sum_fits(vals) {
                Some(
                    (
                        m,
                        EnvItemModel::Data(
                            ItemModel::Number(crate::stdlib::math::spec_sum(vals)),
                        ),
                    ),
                )
            } else {
                None
            },
            _ => None,
        },
        CallableModel::Subtraction => match spec_env_lookup(m.env, "args"@) {
            EnvItemModel::VariableBinding(vals) => if vals.len() >= 1
                && crate::stdlib::math::spec_all_numbers(vals)
                && crate::stdlib::math::spec_diff_fits(vals) {
                Some(
                    (
                        m,
                        EnvItemModel::Data(
                            ItemModel::Number(crate::stdlib::math::spec_diff(vals)),
                        ),
                    ),
                )
            } else {
                None
            },
            _ => None,
        },
        CallableModel::Multiplication => match spec_env_lookup(m.env, "args"@) {
            EnvItemModel::VariableBinding(vals) => if crate::stdlib::math::spec_all_numbers(vals)
                && crate::stdlib::math::spec_prod_fits(vals) {
                Some(
                    (
                        m,
                        EnvItemModel::Data(
                            ItemModel::Number(crate::stdlib::math::spec_prod(vals)),
                        ),
                    ),
                )
            } else {
                None
            },
            _ => None,
        },
        CallableModel::Division => sp_quotient_native(m, true),
        CallableModel::Modulo => sp_quotient_native(m, false),
        CallableModel::LessThan => sp_comparison_native(m, true),
        CallableModel::GreaterThan => sp_comparison_native(m, false),
        CallableModel::Equals => {
            let l = spec_env_lookup(m.env, "left_comparand"@);
            let v = spec_env_lookup(m.env, "right_comparand"@);
            if l == EnvItemModel::Nil || v == EnvItemModel::Nil {
                None
            } else {
                Some((m, EnvItemModel::Data(ItemModel::Boolean(l == v))))
            }
        },
        CallableModel::ListCons => {
            let carv = spec_env_lookup(m.env, "car"@);
            let cdrv = spec_env_lookup(m.env, "cdr"@);
            if carv == EnvItemModel::Nil || cdrv == EnvItemModel::Nil {
                None
            } else {
                match (carv, cdrv) {
                    (EnvItemModel::Data(carm), EnvItemModel::Data(cdrm)) => Some(
                        (
                            m,
                            EnvItemModel::Data(
                                ItemModel::Cons(crate::datastructure::spec_cons_new(carm, cdrm)),
                            ),
                        ),
                    ),
                    _ => None,
                }
            }
        },
        CallableModel::ListCar => match spec_env_lookup(m.env, "list"@) {
            EnvItemModel::Data(ItemModel::Cons(c)) => if c.data.len() >= 1 {
                Some((m, EnvItemModel::Data(c.data[0])))
            } else {
                None
            },
            _ => None,
        },
        CallableModel::ListCdr => match spec_env_lookup(m.env, "list"@) {
            EnvItemModel::Data(ItemModel::Cons(c)) => if c.data.len() >= 1 {
                Some((m, EnvItemModel::Data(crate::datastructure::spec_cons_cdr(c))))
            } else {
                None
            },
            _ => None,
        },
        CallableModel::IsNumber => sp_predicate_native(m, CallableModel::IsNumber),
        CallableModel::IsString => sp_predicate_native(m, CallableModel::IsString),
        CallableModel::IsBoolean => sp_predicate_native(m, CallableModel::IsBoolean),
        CallableModel::IsName => sp_predicate_native(m, CallableModel::IsName),
        CallableModel::IsList => sp_predicate_native(m, CallableModel::IsList),
        CallableModel::IsNil => sp_predicate_native(m, CallableModel::IsNil),
        CallableModel::IsFunction => sp_predicate_native(m, CallableModel::IsFunction),
        CallableModel::Define => {
            let namev = spec_env_lookup(m.env, "name"@);
            let valuev = spec_env_lookup(m.env, "value"@);
            if namev == EnvItemModel::Nil || valuev == EnvItemModel::Nil {
                None
            } else {
                match namev {
                    EnvItemModel::Data(ItemModel::Name(n)) => Some(
                        (
                            MachineModel {
                                env: m.env.update(0, m.env[0].insert(n, valuev)),
                                stack: m.stack,
                            },
                            valuev,
                        ),
                    ),
                    _ => None,
                }
            }
        },
        CallableModel::Quote => match spec_env_lookup(m.env, "value"@) {
            EnvItemModel::Nil => None,
            v => Some((m, v)),
        },
        CallableModel::Lambda(body) => if body.len() >= 1 {
            Some(
                (
                    sp_queue(
                        sp_queue_evals(m, body, 0),
                        InstructionModel::ReturnRegister(body.len() - 1),
                    ),
                    EnvItemModel::Nil,
                ),
            )
        } else {
            None
        },
    }
}

/// The division-family natives: both operands bound and numeric, and the
/// checked operation defined.
pub open spec fn sp_quotient_native(m: MachineModel, dividing: bool) -> Option<
    (MachineModel, EnvItemModel),
> {
    let d = spec_env_lookup(m.env, "dividend"@);
    let v = spec_env_lookup(m.env, "divisor"@);
    if d == EnvItemModel::Nil || v == EnvItemModel::Nil {
        None
    } else if !crate::stdlib::math::spec_is_num(d) || !crate::stdlib::math::spec_is_num(v) {
        None
    } else {
        let q = if dividing {
            (crate::stdlib::math::spec_num(d) as i64).checked_div(
                crate::stdlib::math::spec_num(v) as i64,
            )
        } else {
            (crate::stdlib::math::spec_num(d) as i64).checked_rem(
                crate::stdlib::math::spec_num(v) as i64,
            )
        };
        match q {
            Some(q) => Some((m, EnvItemModel::Data(ItemModel::Number(q as int)))),
            None => None,
        }
    }
}

/// The comparison natives: both comparands bound and numeric.
pub open spec fn sp_comparison_native(m: MachineModel, strictly_below: bool) -> Option<
    (MachineModel, EnvItemModel),
> {
    let l = spec_env_lookup(m.env, "left_comparand"@);
    let v = spec_env_lookup(m.env, "right_comparand"@);
    if l == EnvItemModel::Nil || v == EnvItemModel::Nil {
        None
    } else if !crate::stdlib::math::spec_is_num(l) || !crate::stdlib::math::spec_is_num(v) {
        None
    } else if strictly_below {
        Some(
            (
                m,
                EnvItemModel::Data(
                    ItemModel::Boolean(
                        crate::stdlib::math::spec_num(l) < crate::stdlib::math::spec_num(v),
                    ),
                ),
            ),
        )
    } else {
        Some(
            (
                m,
                EnvItemModel::Data(
                    ItemModel::Boolean(
                        crate::stdlib::math::spec_num(l) > crate::stdlib::math::spec_num(v),
                    ),
                ),
            ),
        )
    }
}

/// The type predicates: the bound `value` answered against its kind.
pub open spec fn sp_predicate_native(m: MachineModel, which: CallableModel) -> Option<
    (MachineModel, EnvItemModel),
> {
    match spec_env_lookup(m.env, "value"@) {
        EnvItemModel::Nil => None,
        v => {
            let answer = match which {
                CallableModel::IsNumber => v matches EnvItemModel::Data(ItemModel::Number(_)),
                CallableModel::IsString => v matches EnvItemModel::Data(ItemModel::String(_)),
                CallableModel::IsBoolean => v matches EnvItemModel::Data(ItemModel::Boolean(_)),
                CallableModel::IsName => v matches EnvItemModel::Data(ItemModel::Name(_)),
                CallableModel::IsList => v matches EnvItemModel::Data(ItemModel::Cons(_)),
                CallableModel::IsNil => v == EnvItemModel::Data(ItemModel::Nil),
                CallableModel::IsFunction => v matches EnvItemModel::Function(_, _, _),
                _ => false,
            };
            Some((m, EnvItemModel::Data(ItemModel::Boolean(answer))))
        },
    }
}

/// The scope layer after binding a parameter contract to the arguments.
pub open spec fn sp_bind(
    layer: Map<Seq<char>, EnvItemModel>,
    params: ParametersModel,
    args: Seq<EnvItemModel>,
) -> Map<Seq<char>, EnvItemModel> {
    match params {
        ParametersModel::All(name) => layer.insert(name, EnvItemModel::VariableBinding(args)),
        ParametersModel::Individual(names) => spec_bind_names(layer, names, args),
    }
}

/// What performing the pending call does: the front register must hold a
/// function; the remaining registers are drained as the argument list and
/// bound against the parameter contract (matching arity exactly for fixed
/// names); the callable then runs as `sp_native` describes; and a result
/// that did not schedule its own return is deposited by a synthesized
/// return instruction.
pub open spec fn sp_call(m: MachineModel) -> Option<MachineModel> {
    if m_top(m).register.len() == 0 {
        None
    } else {
        match m_top(m).register[0] {
            EnvItemModel::Function(name, callable, params) => {
                let args = m_top(m).register.drop_first();
                let m2 = m_with_top(m, FrameModel { register: Seq::empty(), ..m_top(m) });
                let arity_ok = match params {
                    ParametersModel::Individual(names) => names.len() == args.len(),
                    ParametersModel::All(_) => true,
                };
                if arity_ok {
                    let m3 = MachineModel {
                        env: m2.env.update(
                            m2.env.len() - 1,
                            sp_bind(m2.env.last(), params, args),
                        ),
                        stack: m2.stack,
                    };
                    match sp_native(m3, callable) {
                        Some(pair) => {
                            let m4 = pair.0;
                            let keeps_own = m_top(m4).instructions.len() > 0 && (m_top(
                                m4,
                            ).instructions.last() matches InstructionModel::Return(_) || m_top(
                                m4,
                            ).instructions.last() matches InstructionModel::ReturnRegister(_));
                            if keeps_own {
                                Some(m4)
                            } else {
                                Some(sp_queue(m4, InstructionModel::Return(pair.1)))
                            }
                        },
                        None => None,
                    }
                } else {
                    None
                }
            },
            _ => None,
        }
    }
}

impl Machine {
    /// Deposits a result at the current frame's return address and leaves
    /// the call, as `sp_return` describes: the sole channel by which a
    /// nested result becomes visible to its parent.
    fn return_val(&mut self, value: EnvItem) -> (r: VMOutput)
        requires
            old(self).wf(),
        ensures
            final(self).wf(),
            r is Ok <==> sp_return(old(self)@, value@) is Some,
            r is Ok ==> final(self)@ == sp_return(old(self)@, value@)->0,
    {
        let ghost pre = self@;
        let li = self.stack.len() - 1;
        let ret = self.stack[li].ret;
        let sp = ret.0;
        let rp = ret.1;
        if sp >= self.stack.len() {
            return Err(
                VMError::error(String::from_str("A return address leaves the frame stack")),
            );
        }
        if rp >= self.stack[sp].register.len() {
            return Err(
                VMError::error(String::from_str("A return address leaves the register list")),
            );
        }
        let mut frame = StackFrame::default();
        core::mem::swap(&mut self.stack[sp], &mut frame);
        let ghost regs0 = frame.register@;
        frame.register[rp] = value;
        core::mem::swap(&mut self.stack[sp], &mut frame);
        proof {
            broadcast use lemma_env_items_view;

            assert(env_items_view(self.stack@[sp as int].register@) =~= pre.stack[sp as int]
                .register.update(rp as int, value@));
            assert(self@.stack =~= pre.stack.update(
                sp as int,
                FrameModel {
                    register: pre.stack[sp as int].register.update(rp as int, value@),
                    ..pre.stack[sp as int]
                },
            ));
        }
        self.pop_stack_frame()?;
        Ok(())
    }

    /// Deposits the value of a register at the return address, as
    /// `sp_return_register` describes.
    fn return_register(&mut self, register: usize) -> (r: VMOutput)
        requires
            old(self).wf(),
        ensures
            final(self).wf(),
            r is Ok <==> sp_return_register(old(self)@, register as int) is Some,
            r is Ok ==> final(self)@ == sp_return_register(old(self)@, register as int)->0,
    {
        let item = self.get_register(register)?;
        self.return_val(item)
    }

    /// Binds a parameter contract against the evaluated arguments in the
    /// innermost scope layer: a variadic name captures the whole list,
    /// and fixed names are matched by arity, failing on a mismatch.
    #[verifier::loop_isolation(false)]
    fn bind_variables(&mut self, params: Parameters, args: Vec<EnvItem>) -> (r: VMOutput)
        requires
            old(self).wf(),
        ensures
            final(self).wf(),
            final(self)@.stack == old(self)@.stack,
            final(self)@.env.len() == old(self)@.env.len(),
            forall|i: int|
                0 <= i < final(self)@.env.len() - 1 ==> final(self)@.env[i] == old(self)@.env[i],
            match params@ {
                ParametersModel::All(name) => r is Ok && final(self)@.env.last() == old(
                    self,
                )@.env.last().insert(
                    name,
                    EnvItemModel::VariableBinding(env_items_view(args@)),
                ),
                ParametersModel::Individual(names) => {
                    &&& (r is Ok <==> names.len() == args@.len())
                    &&& (r is Ok ==> final(self)@.env.last() == spec_bind_names(
                        old(self)@.env.last(),
                        names,
                        env_items_view(args@),
                    ))
                    &&& (r is Err ==> final(self)@ == old(self)@)
                },
            },
    {
        proof {
            broadcast use lemma_env_items_view;
        }
        match params {
            Parameters::All(all) => {
                self.env.assign(all.as_str(), EnvItem::VariableBinding(args));
                Ok(())
            }
            Parameters::Individual(items) => {
                if items.len() != args.len() {
                    return Err(VMError::wrong_parameter_len());
                }
                let ghost names = crate::datastructure::strings_view(items@);
                let ghost vals = env_items_view(args@);
                let ghost layer0 = self@.env.last();
                let mut i: usize = 0;
                while i < items.len()
                    invariant
                        i <= items@.len(),
                        items@.len() == args@.len(),
                        self.wf(),
                        self@.env.len() == old(self)@.env.len(),
                        self@.stack == old(self)@.stack,
                        forall|k: int|
                            0 <= k < self@.env.len() - 1 ==> self@.env[k] == old(self)@.env[k],
                        self@.env.last() == spec_bind_names(
                            layer0,
                            names.take(i as int),
                            vals.take(i as int),
                        ),
                    decreases items@.len() - i,
                {
                    proof {
                        assert(names.take(i + 1).drop_last() =~= names.take(i as int));
                        assert(vals.take(i + 1).drop_last() =~= vals.take(i as int));
                        assert(names.take(i + 1).last() == names[i as int]);
                        assert(vals.take(i + 1).last() == vals[i as int]);
                    }
                    self.env.assign(items[i].as_str(), args[i].clone());
                    i = i + 1;
                }
                proof {
                    assert(names.take(items@.len() as int) =~= names);
                    assert(vals.take(items@.len() as int) =~= vals);
                }
                Ok(())
            }
        }
    }

    /// Performs the pending call: pops the callee function from the front
    /// register, drains the queued register values as the argument list,
    /// binds them into the call's scope layer, and invokes the callable;
    /// a plain native result is returned by a synthesized instruction,
    /// while a closure schedules its own.
    fn call_function(&mut self) -> (r: VMOutput)
        requires
            old(self).wf(),
        ensures
            final(self).wf(),
            r is Ok <==> sp_call(old(self)@) is Some,
            r is Ok ==> final(self)@ == sp_call(old(self)@)->0,
    {
        let ghost m0 = old(self)@;
        let func_item = self.pop_register()?;
        let (name, func, params) = match func_item {
            EnvItem::Function(n, f, p) => (n, f, p),
            _ => {
                proof {
                    if m_top(m0).register.len() > 0 {
                        assert(!(m_top(m0).register[0] is Function));
                    }
                }
                return Err(VMError::not_a_function());
            }
        };
        proof {
            assert(m_top(m0).register.len() > 0);
            assert(m_top(m0).register[0] == EnvItemModel::Function(name@, func@, params@));
        }
        let args = self.get_current_register()?;
        proof {
            assert(self@.stack =~= m_with_top(
                m0,
                FrameModel { register: Seq::empty(), ..m_top(m0) },
            ).stack);
        }
        let ghost m2 = self@;
        let ghost argsm = env_items_view(args@);
        self.bind_variables(params, args)?;
        proof {
            assert(self@.env =~= m2.env.update(
                m2.env.len() - 1,
                sp_bind(m2.env.last(), params@, argsm),
            ));
        }
        let ghost m3 = self@;
        let ghost fm = func@;
        let output: crate::stdlib::FunctionOutput = match func {
            Callable::Addition => crate::stdlib::math::addition(self),
            Callable::Subtraction => crate::stdlib::math::subtraction(self),
            Callable::Multiplication => crate::stdlib::math::multiplication(self),
            Callable::Division => crate::stdlib::math::division(self),
            Callable::Modulo => crate::stdlib::math::modulo(self),
            Callable::LessThan => crate::stdlib::math::less_than(self),
            Callable::GreaterThan => crate::stdlib::math::greater_than(self),
            Callable::Equals => crate::stdlib::math::equals(self),
            Callable::ListCons => crate::stdlib::list::cons(self),
            Callable::ListCar => crate::stdlib::list::car(self),
            Callable::ListCdr => crate::stdlib::list::cdr(self),
            Callable::IsNumber => crate::stdlib::types::is_number(self),
            Callable::IsString => crate::stdlib::types::is_string(self),
            Callable::IsBoolean => crate::stdlib::types::is_boolean(self),
            Callable::IsName => crate::stdlib::types::is_name(self),
            Callable::IsList => crate::stdlib::types::is_list(self),
            Callable::IsNil => crate::stdlib::types::is_none(self),
            Callable::IsFunction => crate::stdlib::types::is_function(self),
            Callable::Define => crate::stdlib::def(self),
            Callable::Quote => crate::stdlib::quote(self),
            Callable::Lambda(body) => self.invoke_lambda(body),
        };
        proof {
            assert(output is Ok ==> (sp_native(m3, fm) matches Some(pair) && self@ == pair.0 && (
            output->Ok_0)@ == pair.1));
            assert(output is Err ==> sp_native(m3, fm) is None);
        }
        match output {
            Ok(out) => {
                let keeps_own_return = match self.get_last_instruction() {
                    Ok(Instruction::Return(_)) => true,
                    Ok(Instruction::ReturnRegister(_)) => true,
                    _ => false,
                };
                proof {
                    assert(keeps_own_return == (m_top(self@).instructions.len() > 0 && (m_top(
                        self@,
                    ).instructions.last() matches InstructionModel::Return(_) || m_top(
                        self@,
                    ).instructions.last() matches InstructionModel::ReturnRegister(_))));
                }
                if keeps_own_return {
                    Ok(())
                } else {
                    self.push_instruction(Instruction::Return(out))
                }
            }
            Err(e) => Err(VMError::eval_error(e)),
        }
    }

    /// Invokes a closure: queues one evaluation per body expression in
    /// order, then a return of the last expression's slot — the implicit
    /// "return last value" of a body.
    #[verifier::loop_isolation(false)]
    fn invoke_lambda(&mut self, body: Vec<Item>) -> (r: crate::stdlib::FunctionOutput)
        requires
            old(self).wf(),
        ensures
            final(self).wf(),
            r matches Ok(out) ==> out@ == EnvItemModel::Nil && body@.len() >= 1 && final(self)@
                == sp_queue(
                sp_queue_evals(old(self)@, items_view(body@), 0),
                InstructionModel::ReturnRegister(body@.len() - 1),
            ),
            r is Err ==> body@.len() == 0 && final(self)@ == old(self)@,
    {
        proof {
            broadcast use crate::models::group_models;
        }
        if body.len() == 0 {
            return Err(
                crate::stdlib::error::EvalError::new(
                    crate::stdlib::error::EvalErrorCode::E0010,
                    String::from_str("A closure needs at least one body expression"),
                ),
            );
        }
        let ghost bodym = items_view(body@);
        let ghost target = sp_queue_evals(old(self)@, bodym, 0);
        let n = body.len();
        let mut i: usize = 0;
        while i < n
            invariant
                i <= n,
                n == body@.len(),
                self.wf(),
                target == sp_queue_evals(self@, bodym, i as int),
            decreases n - i,
        {
            let it = body[i].clone();
            match self.push_instruction(Instruction::Eval(it)) {
                Ok(_) => {}
                Err(e) => {
                    return Err(crate::stdlib::error::EvalError::from_vm(e));
                }
            }
            i = i + 1;
        }
        proof {
            assert(self@ == target);
        }
        match self.push_instruction(Instruction::ReturnRegister(n - 1)) {
            Ok(_) => {}
            Err(e) => {
                return Err(crate::stdlib::error::EvalError::from_vm(e));
            }
        }
        Ok(EnvItem::Nil)
    }
}


/// One fetch-dispatch step: the front instruction of the current frame,
/// dequeued and executed as its step function describes; an empty queue
/// under a pending frame is a fault.
pub open spec fn sp_step(m: MachineModel) -> Option<MachineModel> {
    if m_top(m).instructions.len() == 0 {
        None
    } else {
        let m1 = m_with_top(
            m,
            FrameModel { instructions: m_top(m).instructions.drop_first(), ..m_top(m) },
        );
        match m_top(m).instructions[0] {
            InstructionModel::CondEval(e) => sp_cond_eval(m1, e),
            InstructionModel::ElseEval(e) => sp_else_eval(m1, e),
            InstructionModel::Eval(it) => sp_eval_item(m1, it),
            InstructionModel::EvalFunction(it) => sp_eval_function(m1, it),
            InstructionModel::EvalRegister(idx) => sp_eval_register(m1, idx),
            InstructionModel::Return(v) => sp_return(m1, v),
            InstructionModel::ReturnRegister(idx) => sp_return_register(m1, idx),
            InstructionModel::CrashIfNotFunction => if m_top(m1).register.len() > 0 && m_top(
                m1,
            ).register[0] matches EnvItemModel::Function(_, _, _) {
                Some(m1)
            } else {
                None
            },
            InstructionModel::Call => sp_call(m1),
        }
    }
}

/// The dispatch loop run to rest: stepping until the root frame's queue
/// is drained and no nested frame remains; a faulting step, or a run
/// longer than the given budget, yields nothing.
pub open spec fn sp_run(m: MachineModel, fuel: nat) -> Option<MachineModel>
    decreases fuel,
{
    if m.stack.len() == 1 && m_top(m).instructions.len() == 0 {
        Some(m)
    } else if fuel == 0 {
        None
    } else {
        match sp_step(m) {
            Some(m2) => sp_run(m2, (fuel - 1) as nat),
            None => None,
        }
    }
}

impl Machine {
    /// Removes and returns the front instruction of the current frame's
    /// queue, faulting when the queue is empty.
    fn pop_instruction(&mut self) -> (r: VMOutput<Instruction>)
        requires
            old(self).wf(),
        ensures
            final(self).wf(),
            m_top(old(self)@).instructions.len() == 0 ==> r is Err && final(self)@ == old(
                self,
            )@,
            m_top(old(self)@).instructions.len() > 0 ==> (r matches Ok(i) && i@ == m_top(
                old(self)@,
            ).instructions[0]) && final(self)@ == m_with_top(
                old(self)@,
                FrameModel {
                    instructions: m_top(old(self)@).instructions.drop_first(),
                    ..m_top(old(self)@)
                },
            ),
    {
        let ghost pre = self@;
        match self.stack.pop() {
            Some(mut sf) => {
                if sf.instructions.len() == 0 {
                    self.stack.push(sf);
                    proof {
                        assert(final(self)@.stack =~= pre.stack);
                    }
                    Err(VMError::error(String::from_str("No more instructions")))
                } else {
                    let i = sf.instructions.remove(0);
                    self.stack.push(sf);
                    proof {
                        assert(instrs_view(sf.instructions@) =~= m_top(
                            pre,
                        ).instructions.drop_first());
                        assert(final(self)@.stack =~= m_with_top(
                            pre,
                            FrameModel {
                                instructions: m_top(pre).instructions.drop_first(),
                                ..m_top(pre)
                            },
                        ).stack);
                    }
                    Ok(i)
                }
            }
            None => Err(VMError::error(String::new())),
        }
    }

    /// Fetches and executes the current frame's front instruction. For
    /// every instruction except `Call`, the effect is exactly the
    /// corresponding step function applied after the dequeue.
    fn run_instruction(&mut self) -> (r: VMOutput)
        requires
            old(self).wf(),
        ensures
            final(self).wf(),
            m_top(old(self)@).instructions.len() == 0 ==> r is Err && final(self)@ == old(
                self,
            )@,
            m_top(old(self)@).instructions.len() > 0 ==> ({
                let instr = m_top(old(self)@).instructions[0];
                let m1 = m_with_top(
                    old(self)@,
                    FrameModel {
                        instructions: m_top(old(self)@).instructions.drop_first(),
                        ..m_top(old(self)@)
                    },
                );
                match instr {
                    InstructionModel::CondEval(e) => (r is Ok <==> sp_cond_eval(m1, e) is Some)
                        && (r is Ok ==> final(self)@ == sp_cond_eval(m1, e)->0),
                    InstructionModel::ElseEval(e) => (r is Ok <==> sp_else_eval(m1, e) is Some)
                        && (r is Ok ==> final(self)@ == sp_else_eval(m1, e)->0),
                    InstructionModel::Eval(it) => (r is Ok <==> sp_eval_item(m1, it) is Some) && (
                    r is Ok ==> final(self)@ == sp_eval_item(m1, it)->0),
                    InstructionModel::EvalFunction(it) => (r is Ok <==> sp_eval_function(m1, it)
                        is Some) && (r is Ok ==> final(self)@ == sp_eval_function(m1, it)->0),
                    InstructionModel::EvalRegister(idx) => (r is Ok <==> sp_eval_register(m1, idx)
                        is Some) && (r is Ok ==> final(self)@ == sp_eval_register(m1, idx)->0),
                    InstructionModel::Return(v) => (r is Ok <==> sp_return(m1, v) is Some) && (r
                        is Ok ==> final(self)@ == sp_return(m1, v)->0),
                    InstructionModel::ReturnRegister(idx) => (r is Ok <==> sp_return_register(
                        m1,
                        idx,
                    ) is Some) && (r is Ok ==> final(self)@ == sp_return_register(m1, idx)->0),
                    InstructionModel::CrashIfNotFunction => (r is Ok <==> m_top(
                        m1,
                    ).register.len() > 0 && m_top(m1).register[0] matches EnvItemModel::Function(
                        _,
                        _,
                        _,
                    )) && final(self)@ == m1,
                    InstructionModel::Call => (r is Ok <==> sp_call(m1) is Some) && (r is Ok
                        ==> final(self)@ == sp_call(m1)->0),
                }
            }),
    {
        let instruction = self.pop_instruction()?;
        match instruction {
            Instruction::CondEval(expression) => self.conditional_eval(expression),
            Instruction::ElseEval(expression) => self.else_eval(expression),
            Instruction::Eval(i) => self.eval_item(i),
            Instruction::EvalFunction(i) => self.eval_function(i),
            Instruction::EvalRegister(r) => self.eval_register(r),
            Instruction::Return(i) => self.return_val(i),
            Instruction::ReturnRegister(r) => self.return_register(r),
            Instruction::Call => self.call_function(),
            Instruction::CrashIfNotFunction => self.crash_if_not_function(),
        }
    }

    /// Evaluates one top-level form: seeds a single fresh frame with its
    /// evaluation, runs the dispatch loop until the root frame's queue is
    /// drained and no nested frame remains, and hands back the single
    /// value left in the root registers. The environment and its global
    /// bindings survive, whether evaluation succeeds or faults.
    #[verifier::loop_isolation(false)]
    pub fn eval(&mut self, item: Item) -> (r: VMOutput<EnvItem>)
        requires
            old(self).wf(),
        ensures
            final(self).wf(),
            ({
                let start = MachineModel {
                    env: old(self)@.env,
                    stack: seq![FrameModel::empty()],
                };
                let seeded = sp_queue(start, InstructionModel::Eval(item@));
                match sp_run(seeded, u64::MAX as nat) {
                    Some(rest) => if m_top(rest).register.len() == 1 {
                        (r matches Ok(v) && v@ == m_top(rest).register[0]) && final(self)@
                            == m_with_top(
                            rest,
                            FrameModel { register: Seq::empty(), ..m_top(rest) },
                        )
                    } else {
                        r is Err
                    },
                    None => r is Err,
                }
            }),
    {
        let ghost start = MachineModel { env: old(self)@.env, stack: seq![FrameModel::empty()] };
        let ghost seeded = sp_queue(start, InstructionModel::Eval(item@));
        let ghost target = sp_run(seeded, u64::MAX as nat);
        self.clear_stack()?;
        self.push_instruction(Instruction::Eval(item))?;
        proof {
            assert(self@ == seeded);
        }
        let mut fuel: u64 = u64::MAX;
        while self.stack[0].instructions.len() > 0 || self.stack.len() > 1
            invariant
                self.wf(),
                target == sp_run(self@, fuel as nat),
            decreases fuel,
        {
            let ghost pre = self@;
            if fuel == 0 {
                return Err(
                    VMError::error(String::from_str("The instruction budget is exhausted")),
                );
            }
            fuel = fuel - 1;
            match self.run_instruction() {
                Ok(_) => {
                    proof {
                        assert(sp_step(pre) == Some(self@));
                    }
                }
                Err(e) => {
                    proof {
                        assert(sp_step(pre) is None);
                    }
                    return Err(e);
                }
            }
        }
        proof {
            assert(self@.stack.len() == 1);
            assert(m_top(self@).instructions.len() == 0);
            assert(target == Some(self@));
        }
        let mut reg = self.get_current_register()?;
        if reg.len() != 1 {
            Err(VMError::error(String::from_str("Incorrect amount of values returned")))
        } else {
            let v = reg.remove(0);
            proof {
                broadcast use lemma_env_items_view;
            }
            Ok(v)
        }
    }
}

impl Default for Machine {
    /// A machine over the native library's global environment, with one
    /// idle root frame.
    fn default() -> (r: Machine)
        ensures
            r.wf(),
            r@.env == seq![crate::stdlib::spec_stdlib_layer()],
            r@.stack == seq![FrameModel::empty()],
    {
        let r = Machine { env: crate::stdlib::stdlib(), stack: vec![StackFrame::default()] };
        proof {
            assert(r@.stack =~= seq![FrameModel::empty()]);
        }
        r
    }
}

} // verus!
